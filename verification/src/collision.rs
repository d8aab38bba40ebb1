//! The collision test: a bounding-rectangle filter, then a scan of the
//! overlap for a point at which both sprites are solid.

use vstd::prelude::*;
use crate::geometry::{
    Overlap,
    bounding_overlap,
    overlap_height,
    overlap_left,
    overlap_top,
    overlap_width,
    rects_intersect,
};
use crate::scan::{Scan, Strategy, any_sample_hits, sample_hit, sampled};
use crate::sprite::{Collidable, Sprite, SpriteView};

verus! {

/// The distance between sample points for a requested stride: the stride
/// itself, and 1 where 0 was asked for.
pub open spec fn sampling_step(skip_pixels: u32) -> int {
    if skip_pixels == 0 {
        1
    } else {
        skip_pixels as int
    }
}

/// Whether two sprites collide when their overlap is sampled every `stride`
/// units.
///
/// Sprites whose bounding rectangles do not intersect never collide. Two
/// sprites without masks collide as soon as their rectangles intersect.
/// Otherwise they collide when both are solid at some sample point, a sprite
/// without a mask being solid all over its rectangle.
pub open spec fn collides(a: SpriteView, b: SpriteView, stride: int) -> bool {
    &&& rects_intersect(a.pos, a.size, b.pos, b.size)
    &&& (a.mask is None && b.mask is None) || any_sample_hits(a, b, stride)
}

/// The sample points of two sprites do not depend on the order in which the
/// sprites are given, nor does a hit.
pub proof fn lemma_samples_symmetric(a: SpriteView, b: SpriteView, stride: int)
    ensures
        any_sample_hits(a, b, stride) == any_sample_hits(b, a, stride),
{
    if any_sample_hits(a, b, stride) {
        let (i, j) = choose|i: int, j: int|
            sampled(a, b, stride, i, j) && #[trigger] sample_hit(a, b, stride, i, j);
        assert(sampled(b, a, stride, i, j) && sample_hit(b, a, stride, i, j));
    }
    if any_sample_hits(b, a, stride) {
        let (i, j) = choose|i: int, j: int|
            sampled(b, a, stride, i, j) && #[trigger] sample_hit(b, a, stride, i, j);
        assert(sampled(a, b, stride, i, j) && sample_hit(a, b, stride, i, j));
    }
}

/// Collision test for the case that exactly one sprite has a mask. The
/// sprite without one counts as a solid rectangle: a hit is a sample point
/// where the mask is opaque and which lies inside that rectangle.
///
/// `area` is the overlap of the two bounding rectangles, which intersect.
pub fn check_one_masked_collision(
    masked: Sprite,
    solid: Sprite,
    area: Overlap,
    stride: usize,
    strategy: Strategy,
) -> (hit: bool)
    requires
        masked.mask is Some,
        solid.mask is None,
        rects_intersect(masked.pos, masked.size, solid.pos, solid.size),
        area.x == overlap_left(masked.pos, solid.pos),
        area.y == overlap_top(masked.pos, solid.pos),
        area.width == overlap_width(masked.pos, masked.size, solid.pos, solid.size),
        area.height == overlap_height(masked.pos, masked.size, solid.pos, solid.size),
        stride >= 1,
    ensures
        hit == any_sample_hits(masked@, solid@, stride as int),
        hit == collides(masked@, solid@, stride as int),
{
    let scan = Scan {
        first: masked,
        second: solid,
        left: area.x,
        top: area.y,
        width: area.width as usize,
        height: area.height as usize,
        stride,
    };
    scan.any_hit(strategy)
}

/// Collision test with an explicit scanning strategy. The answer does not
/// depend on the strategy.
pub fn check_collision_with<T: Collidable, U: Collidable>(
    obj1: &T,
    obj2: &U,
    skip_pixels: u32,
    strategy: Strategy,
) -> (hit: bool)
    ensures
        hit == collides(obj1.sprite(), obj2.sprite(), sampling_step(skip_pixels)),
{
    let first = Sprite {
        pos: obj1.pos(),
        size: obj1.size(),
        texture: obj1.texture_size(),
        mask: obj1.get_mask(),
    };
    let second = Sprite {
        pos: obj2.pos(),
        size: obj2.size(),
        texture: obj2.texture_size(),
        mask: obj2.get_mask(),
    };
    assert(first@ == obj1.sprite());
    assert(second@ == obj2.sprite());

    let area = bounding_overlap(first.pos, first.size, second.pos, second.size);
    if area.width <= 0 || area.height <= 0 {
        return false;
    }
    if first.mask.is_none() && second.mask.is_none() {
        return true;
    }
    let stride: usize = if skip_pixels == 0 {
        1
    } else {
        skip_pixels as usize
    };
    if first.mask.is_some() && second.mask.is_none() {
        return check_one_masked_collision(first, second, area, stride, strategy);
    }
    if first.mask.is_none() && second.mask.is_some() {
        proof {
            lemma_samples_symmetric(first@, second@, stride as int);
        }
        return check_one_masked_collision(second, first, area, stride, strategy);
    }
    let scan = Scan {
        first,
        second,
        left: area.x,
        top: area.y,
        width: area.width as usize,
        height: area.height as usize,
        stride,
    };
    scan.any_hit(strategy)
}

/// Decides whether the visible, opaque regions of two sprites overlap,
/// sampling their overlap every `skip_pixels` units (0 counts as 1). With 1
/// the test is exact; a larger stride is faster and can miss solid regions
/// narrower than itself. Rows of the overlap are scanned on a pool of worker
/// threads.
pub fn check_collision<T: Collidable, U: Collidable>(obj1: &T, obj2: &U, skip_pixels: u32) -> (hit: bool)
    ensures
        hit == collides(obj1.sprite(), obj2.sprite(), sampling_step(skip_pixels)),
{
    check_collision_with(obj1, obj2, skip_pixels, Strategy::Parallel)
}

/// The same test as `check_collision`, scanned on the calling thread alone,
/// for targets without threads.
pub fn check_collision_sequential<T: Collidable, U: Collidable>(
    obj1: &T,
    obj2: &U,
    skip_pixels: u32,
) -> (hit: bool)
    ensures
        hit == collides(obj1.sprite(), obj2.sprite(), sampling_step(skip_pixels)),
{
    check_collision_with(obj1, obj2, skip_pixels, Strategy::Sequential)
}

} // verus!
