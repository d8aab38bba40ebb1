//! Laws of the collision test, proved over the functions that its contract
//! is stated in.

use vstd::prelude::*;
use crate::collision::{collides, lemma_samples_symmetric};
use crate::geometry::{
    lemma_overlap_is_intersection,
    overlap_height,
    overlap_left,
    overlap_top,
    overlap_width,
    rect_contains,
    rects_intersect,
};
use crate::mask::{bit_at, opaque_at};
use crate::scan::{any_sample_hits, hit_at, offset_hit, sample_hit, sampled};
use crate::sprite::{SpriteView, mask_fits, mask_len_for, solid_at, texel_coord, texel_index};

verus! {

/// Whether some world point lies in the bounding rectangles of both sprites.
pub open spec fn share_a_point(a: SpriteView, b: SpriteView) -> bool {
    exists|x: int, y: int| #[trigger] rect_contains(a.pos, a.size, x, y) && rect_contains(b.pos, b.size, x, y)
}

/// Whether the sprite has a mask in which every bit is set.
pub open spec fn fully_opaque(s: SpriteView) -> bool {
    s.mask matches Some(bytes) && forall|k: int| 0 <= k < bytes.len() ==> #[trigger] bytes[k] == 0xffu8
}

/// Whether the sprite has a mask in which no bit is set.
pub open spec fn fully_transparent(s: SpriteView) -> bool {
    s.mask matches Some(bytes) && forall|k: int| 0 <= k < bytes.len() ==> #[trigger] bytes[k] == 0u8
}

/// Sprites whose bounding rectangles share no point never collide, whatever
/// their masks hold and whatever the stride.
pub proof fn lemma_apart_never_collide(a: SpriteView, b: SpriteView, stride: int)
    requires
        !share_a_point(a, b),
    ensures
        !collides(a, b, stride),
{
    let x = overlap_left(a.pos, b.pos);
    let y = overlap_top(a.pos, b.pos);
    lemma_overlap_is_intersection(a.pos, a.size, b.pos, b.size, x, y);
    if rects_intersect(a.pos, a.size, b.pos, b.size) {
        assert(rect_contains(a.pos, a.size, x, y) && rect_contains(b.pos, b.size, x, y));
    }
}

/// The test does not depend on the order of its two sprites.
pub proof fn lemma_collides_symmetric(a: SpriteView, b: SpriteView, stride: int)
    ensures
        collides(a, b, stride) == collides(b, a, stride),
{
    lemma_samples_symmetric(a, b, stride);
}

/// Inside a sprite with a texture of at least one texel, every world point
/// maps to a texel of the texture.
pub proof fn lemma_texel_in_texture(s: SpriteView, x: int, y: int)
    requires
        rect_contains(s.pos, s.size, x, y),
        s.texture.width > 0,
        s.texture.height > 0,
    ensures
        0 <= texel_index(s, x, y) < s.texture.width * s.texture.height,
{
    let tw = s.texture.width as int;
    let th = s.texture.height as int;
    let tx = texel_coord(x, s.pos.x as int, s.size.width as int, tw);
    let ty = texel_coord(y, s.pos.y as int, s.size.height as int, th);
    let dx = x - s.pos.x;
    let dy = y - s.pos.y;
    let w = s.size.width as int;
    let h = s.size.height as int;
    assert(0 <= (dx * tw) / w < tw) by (nonlinear_arith)
        requires
            0 <= dx < w,
            tw > 0,
    ;
    assert(0 <= (dy * th) / h < th) by (nonlinear_arith)
        requires
            0 <= dy < h,
            th > 0,
    ;
    assert(0 <= ty * tw + tx < tw * th) by (nonlinear_arith)
        requires
            0 <= tx < tw,
            0 <= ty < th,
    ;
}

/// Every bit of a byte with all bits set reads as 1, every bit of a zero
/// byte as 0.
proof fn lemma_uniform_bytes(shift: u8)
    requires
        shift < 8,
    ensures
        (0xffu8 >> shift) & 1u8 == 1u8,
        (0u8 >> shift) & 1u8 == 0u8,
{
    assert((0xffu8 >> shift) & 1u8 == 1u8) by (bit_vector)
        requires
            shift < 8,
    ;
    assert((0u8 >> shift) & 1u8 == 0u8) by (bit_vector);
}

/// A sprite that has no mask, or whose mask has the right length for a
/// texture of at least one texel and has every bit set, is solid at every
/// point of its rectangle.
pub proof fn lemma_opaque_is_solid(s: SpriteView, x: int, y: int)
    requires
        rect_contains(s.pos, s.size, x, y),
        s.mask is Some ==> fully_opaque(s) && mask_fits(s) && s.texture.width > 0 && s.texture.height > 0,
    ensures
        solid_at(s, x, y),
{
    if s.mask is Some {
        let bytes = s.mask->Some_0;
        let index = texel_index(s, x, y);
        lemma_texel_in_texture(s, x, y);
        assert(index / 8 < bytes.len());
        assert(bytes[index / 8] == 0xffu8);
        lemma_uniform_bytes((7 - index % 8) as u8);
        assert(bit_at(bytes, index) == 1u8);
    }
}

/// A sprite whose mask has no bit set is solid nowhere.
pub proof fn lemma_transparent_is_hollow(s: SpriteView, x: int, y: int)
    requires
        fully_transparent(s),
    ensures
        !solid_at(s, x, y),
{
    let bytes = s.mask->Some_0;
    let index = texel_index(s, x, y);
    if 0 <= index && index / 8 < bytes.len() {
        assert(bytes[index / 8] == 0u8);
        lemma_uniform_bytes((7 - index % 8) as u8);
    }
    assert(bit_at(bytes, index) == 0u8);
}

/// Two sprites whose rectangles intersect and whose masks, where they have
/// one, have every bit set collide at every stride, so in particular at
/// stride 1. A mask must have the length its texture calls for, and the
/// texture at least one texel.
pub proof fn lemma_opaque_masks_collide(a: SpriteView, b: SpriteView, stride: int)
    requires
        rects_intersect(a.pos, a.size, b.pos, b.size),
        a.mask is Some ==> fully_opaque(a) && mask_fits(a) && a.texture.width > 0 && a.texture.height > 0,
        b.mask is Some ==> fully_opaque(b) && mask_fits(b) && b.texture.width > 0 && b.texture.height > 0,
    ensures
        collides(a, b, stride),
{
    let x = overlap_left(a.pos, b.pos);
    let y = overlap_top(a.pos, b.pos);
    lemma_overlap_is_intersection(a.pos, a.size, b.pos, b.size, x, y);
    lemma_opaque_is_solid(a, x, y);
    lemma_opaque_is_solid(b, x, y);
    assert(0 * stride == 0) by (nonlinear_arith);
    assert(sampled(a, b, stride, 0, 0) && sample_hit(a, b, stride, 0, 0));
}

/// Two sprites of which one has a mask with no bit set never collide,
/// whatever the stride.
pub proof fn lemma_transparent_mask_never_collides(a: SpriteView, b: SpriteView, stride: int)
    requires
        fully_transparent(a) || fully_transparent(b),
    ensures
        !collides(a, b, stride),
{
    assert forall|i: int, j: int| sampled(a, b, stride, i, j) implies !#[trigger] sample_hit(
        a,
        b,
        stride,
        i,
        j,
    ) by {
        let x = overlap_left(a.pos, b.pos) + i * stride;
        let y = overlap_top(a.pos, b.pos) + j * stride;
        if fully_transparent(a) {
            lemma_transparent_is_hollow(a, x, y);
        } else {
            lemma_transparent_is_hollow(b, x, y);
        }
    }
}

/// At stride 1 the test is exact: a world point at which both sprites are
/// solid is always found.
pub proof fn lemma_stride_one_is_exact(a: SpriteView, b: SpriteView, x: int, y: int)
    requires
        hit_at(a, b, x, y),
    ensures
        collides(a, b, 1),
{
    lemma_overlap_is_intersection(a.pos, a.size, b.pos, b.size, x, y);
    let i = x - overlap_left(a.pos, b.pos);
    let j = y - overlap_top(a.pos, b.pos);
    assert(sampled(a, b, 1, i, j) && sample_hit(a, b, 1, i, j));
}

/// A sprite without a mask is a solid rectangle: where a masked sprite has an
/// opaque texel under a world point inside that rectangle, the two collide at
/// stride 1.
pub proof fn lemma_unmasked_is_solid(a: SpriteView, b: SpriteView, x: int, y: int)
    requires
        a.mask is None,
        b.mask matches Some(bytes) && opaque_at(bytes, texel_index(b, x, y)),
        rect_contains(a.pos, a.size, x, y),
        rect_contains(b.pos, b.size, x, y),
    ensures
        collides(a, b, 1),
        collides(b, a, 1),
{
    lemma_stride_one_is_exact(a, b, x, y);
    lemma_collides_symmetric(a, b, 1);
}

/// A larger stride only ever misses: what collides at some stride of at least
/// 1 collides at stride 1.
pub proof fn lemma_coarse_hit_is_real(a: SpriteView, b: SpriteView, stride: int)
    requires
        stride >= 1,
        collides(a, b, stride),
    ensures
        collides(a, b, 1),
{
    if any_sample_hits(a, b, stride) {
        let (i, j) = choose|i: int, j: int|
            sampled(a, b, stride, i, j) && #[trigger] sample_hit(a, b, stride, i, j);
        lemma_stride_one_is_exact(
            a,
            b,
            overlap_left(a.pos, b.pos) + i * stride,
            overlap_top(a.pos, b.pos) + j * stride,
        );
    }
}

/// With a stride that is at least as long as the overlap is wide and high,
/// the top-left corner of the overlap is the only sample point.
pub proof fn lemma_wide_stride_samples_corner_only(a: SpriteView, b: SpriteView, stride: int)
    requires
        stride >= overlap_width(a.pos, a.size, b.pos, b.size),
        stride >= overlap_height(a.pos, a.size, b.pos, b.size),
        rects_intersect(a.pos, a.size, b.pos, b.size),
    ensures
        any_sample_hits(a, b, stride) == offset_hit(a, b, 0, 0),
{
    assert(0 * stride == 0) by (nonlinear_arith);
    if offset_hit(a, b, 0, 0) {
        assert(sampled(a, b, stride, 0, 0) && sample_hit(a, b, stride, 0, 0));
    }
    if any_sample_hits(a, b, stride) {
        let (i, j) = choose|i: int, j: int|
            sampled(a, b, stride, i, j) && #[trigger] sample_hit(a, b, stride, i, j);
        assert(i == 0) by (nonlinear_arith)
            requires
                0 <= i,
                stride >= 1,
                i * stride < stride,
        ;
        assert(j == 0) by (nonlinear_arith)
            requires
                0 <= j,
                stride >= 1,
                j * stride < stride,
        ;
    }
}

/// A sprite that is drawn with no width or no height, or with a negative
/// one, collides with nothing, whatever the masks and the stride.
pub proof fn lemma_degenerate_never_collides(a: SpriteView, b: SpriteView, stride: int)
    requires
        a.size.width <= 0 || a.size.height <= 0,
    ensures
        !collides(a, b, stride),
        !collides(b, a, stride),
{
}

} // verus!
