//! Collidable sprites: what a sprite must expose to take part in a collision
//! test, a plain sprite type that exposes it, and the mapping from world
//! points to texels of the sprite's native image.

use vstd::prelude::*;
use crate::geometry::{Extent, Point, TexSize, point_in_rect, rect_contains};
use crate::mask::{opaque_at, read_bit};

verus! {

/// What a collision test reads of a sprite.
pub struct SpriteView {
    pub pos: Point,
    pub size: Extent,
    pub texture: TexSize,
    /// `None` means that the whole rendered rectangle is solid.
    pub mask: Option<Seq<u8>>,
}

/// The contents of an optional mask buffer.
pub open spec fn mask_model(mask: Option<Vec<u8>>) -> Option<Seq<u8>> {
    match mask {
        Some(bytes) => Some(bytes@),
        None => None,
    }
}

/// The capability a type needs to take part in collision tests: four
/// accessors without side effects.
pub trait Collidable {
    /// The values that the four accessors report. Implementations that are
    /// verified say here what their accessors return.
    open spec fn sprite(&self) -> SpriteView {
        arbitrary()
    }

    /// World-space top-left corner.
    fn pos(&self) -> (p: Point)
        ensures
            p == self.sprite().pos,
    ;

    /// World-space size as currently drawn.
    fn size(&self) -> (s: Extent)
        ensures
            s == self.sprite().size,
    ;

    /// Native size of the underlying image.
    fn texture_size(&self) -> (t: TexSize)
        ensures
            t == self.sprite().texture,
    ;

    /// The opacity mask, if the sprite has one.
    fn get_mask(&self) -> (m: Option<Vec<u8>>)
        ensures
            mask_model(m) == self.sprite().mask,
    ;
}

/// A sprite held as plain values.
#[derive(Debug)]
pub struct Sprite {
    pub pos: Point,
    pub size: Extent,
    pub texture: TexSize,
    pub mask: Option<Vec<u8>>,
}

impl View for Sprite {
    type V = SpriteView;

    open spec fn view(&self) -> SpriteView {
        SpriteView { pos: self.pos, size: self.size, texture: self.texture, mask: mask_model(self.mask) }
    }
}

/// Why a mask was refused for a texture.
#[derive(Clone, Copy, Debug, PartialEq, Eq, Structural)]
pub enum MaskError {
    /// The buffer does not hold exactly one bit per texel, rounded up to
    /// whole bytes.
    WrongLength { expected: u64, actual: u64 },
}

/// Number of bytes that a mask for a texture of this size occupies.
pub open spec fn mask_len_for(texture: TexSize) -> int {
    (texture.width * texture.height + 7) / 8
}

/// Whether the mask, if there is one, has the length its texture calls for.
pub open spec fn mask_fits(s: SpriteView) -> bool {
    s.mask matches Some(bytes) ==> bytes.len() == mask_len_for(s.texture)
}

/// Texel coordinate, along one axis, of the world coordinate `world` in a
/// sprite that starts at `origin`, is drawn `rendered` units long and whose
/// image is `native` texels long: the scaled offset, rounded down.
pub open spec fn texel_coord(world: int, origin: int, rendered: int, native: int) -> int {
    ((world - origin) * native) / rendered
}

/// Row-major number of the texel under the world point `(x, y)`.
pub open spec fn texel_index(s: SpriteView, x: int, y: int) -> int {
    texel_coord(y, s.pos.y as int, s.size.height as int, s.texture.height as int) * s.texture.width
        + texel_coord(x, s.pos.x as int, s.size.width as int, s.texture.width as int)
}

/// Whether the sprite is solid at the world point `(x, y)`: the point lies in
/// the rendered rectangle, and the texel under it is opaque where the sprite
/// has a mask.
pub open spec fn solid_at(s: SpriteView, x: int, y: int) -> bool {
    &&& rect_contains(s.pos, s.size, x, y)
    &&& s.mask matches Some(bytes) ==> opaque_at(bytes, texel_index(s, x, y))
}

/// Number of bytes that a mask for a texture of this size occupies.
pub fn mask_len(texture: TexSize) -> (len: u64)
    ensures
        len == mask_len_for(texture),
{
    let w: u64 = texture.width as u64;
    let h: u64 = texture.height as u64;
    assert(w * h <= 0xffff_ffff * 0xffff_ffff) by (nonlinear_arith)
        requires
            w <= 0xffff_ffff,
            h <= 0xffff_ffff,
    ;
    (w * h + 7) / 8
}

/// Maps one world coordinate inside a sprite to a texel coordinate.
pub fn texel_coord_of(world: i64, origin: i32, rendered: i32, native: u32) -> (t: u64)
    requires
        origin <= world < origin + rendered,
    ensures
        t == texel_coord(world as int, origin as int, rendered as int, native as int),
        t <= native,
        native > 0 ==> t < native,
{
    let offset: u64 = (world - origin as i64) as u64;
    let length: u64 = rendered as u64;
    let scale: u64 = native as u64;
    assert(offset * scale <= 0x7fff_ffff * 0xffff_ffff) by (nonlinear_arith)
        requires
            offset <= 0x7fff_ffff,
            scale <= 0xffff_ffff,
    ;
    assert((offset * scale) / (length as int) <= scale && (scale > 0 ==> (offset * scale) / (length as int)
        < scale)) by (nonlinear_arith)
        requires
            offset < length,
    ;
    offset * scale / length
}

/// Copies a byte buffer.
pub fn copy_bytes(bytes: &Vec<u8>) -> (copy: Vec<u8>)
    ensures
        copy@ == bytes@,
{
    let mut copy: Vec<u8> = Vec::with_capacity(bytes.len());
    let mut i: usize = 0;
    while i < bytes.len()
        invariant
            i <= bytes.len(),
            copy@ == bytes@.subrange(0, i as int),
        decreases bytes.len() - i,
    {
        copy.push(bytes[i]);
        i = i + 1;
        assert(copy@ =~= bytes@.subrange(0, i as int));
    }
    assert(bytes@.subrange(0, bytes.len() as int) =~= bytes@);
    copy
}

impl Sprite {
    /// A sprite without a mask: its whole rendered rectangle is solid.
    pub fn solid(pos: Point, size: Extent, texture: TexSize) -> (s: Sprite)
        ensures
            s@ == (SpriteView { pos, size, texture, mask: None }),
    {
        Sprite { pos, size, texture, mask: None }
    }

    /// A sprite with a mask, accepted only when the mask holds exactly one bit
    /// per texel of the texture.
    pub fn masked(pos: Point, size: Extent, texture: TexSize, mask: Vec<u8>) -> (r: Result<Sprite, MaskError>)
        ensures
            mask@.len() == mask_len_for(texture) ==> r is Ok && r->Ok_0@ == (SpriteView {
                pos,
                size,
                texture,
                mask: Some(mask@),
            }),
            mask@.len() != mask_len_for(texture) ==> r == Err::<Sprite, MaskError>(
                MaskError::WrongLength { expected: mask_len_for(texture) as u64, actual: mask@.len() as u64 },
            ),
    {
        let expected: u64 = mask_len(texture);
        let actual: u64 = mask.len() as u64;
        if actual == expected {
            Ok(Sprite { pos, size, texture, mask: Some(mask) })
        } else {
            Err(MaskError::WrongLength { expected, actual })
        }
    }

    /// Checks that the mask, if there is one, has the length that the texture
    /// calls for.
    pub fn check_mask(&self) -> (r: Result<(), MaskError>)
        ensures
            mask_fits(self@) <==> r is Ok,
            r matches Err(e) ==> e == (MaskError::WrongLength {
                expected: mask_len_for(self.texture) as u64,
                actual: self.mask->Some_0@.len() as u64,
            }),
    {
        match &self.mask {
            None => Ok(()),
            Some(bytes) => {
                let expected: u64 = mask_len(self.texture);
                let actual: u64 = bytes.len() as u64;
                if actual == expected {
                    Ok(())
                } else {
                    Err(MaskError::WrongLength { expected, actual })
                }
            },
        }
    }

    /// Row-major number of the texel under a world point inside the sprite.
    pub fn texel_index_at(&self, x: i64, y: i64) -> (index: u64)
        requires
            rect_contains(self.pos, self.size, x as int, y as int),
        ensures
            index == texel_index(self@, x as int, y as int),
    {
        let tx: u64 = texel_coord_of(x, self.pos.x, self.size.width, self.texture.width);
        let ty: u64 = texel_coord_of(y, self.pos.y, self.size.height, self.texture.height);
        let w: u64 = self.texture.width as u64;
        assert(ty * w + tx <= 0xffff_ffff * 0xffff_ffff + 0xffff_ffff) by (nonlinear_arith)
            requires
                ty <= 0xffff_ffff,
                w <= 0xffff_ffff,
                tx <= 0xffff_ffff,
        ;
        ty * w + tx
    }

    /// Whether the sprite is solid at a world point. Outside the rendered
    /// rectangle nothing is solid, so a sprite of zero or negative size is
    /// solid nowhere.
    pub fn solid_at(&self, x: i64, y: i64) -> (solid: bool)
        ensures
            solid == solid_at(self@, x as int, y as int),
    {
        if !point_in_rect(self.pos, self.size, x, y) {
            return false;
        }
        match &self.mask {
            None => true,
            Some(bytes) => {
                let index: u64 = self.texel_index_at(x, y);
                read_bit(bytes, index) == 1
            },
        }
    }
}

impl Collidable for Sprite {
    open spec fn sprite(&self) -> SpriteView {
        self@
    }

    fn pos(&self) -> (p: Point) {
        self.pos
    }

    fn size(&self) -> (s: Extent) {
        self.size
    }

    fn texture_size(&self) -> (t: TexSize) {
        self.texture
    }

    fn get_mask(&self) -> (m: Option<Vec<u8>>) {
        match &self.mask {
            None => None,
            Some(bytes) => Some(copy_bytes(bytes)),
        }
    }
}

} // verus!
