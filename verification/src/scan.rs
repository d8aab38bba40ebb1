//! Scanning the overlap of two sprites for a point at which both are solid.
//!
//! Sample points start at the top-left corner of the overlap and advance by
//! the stride on both axes. A stride of 1 visits every point and is exact; a
//! larger stride is faster and may miss solid regions narrower than itself.

use vstd::prelude::*;
use rayon::iter::{IndexedParallelIterator, IntoParallelIterator, ParallelIterator};
use crate::geometry::{overlap_height, overlap_left, overlap_top, overlap_width, rects_intersect};
use crate::sprite::{Sprite, SpriteView, solid_at};

verus! {

/// Whether both sprites are solid at the world point `(x, y)`.
pub open spec fn hit_at(a: SpriteView, b: SpriteView, x: int, y: int) -> bool {
    solid_at(a, x, y) && solid_at(b, x, y)
}

/// Whether both sprites are solid at the point `dx` to the right of and `dy`
/// below the top-left corner of their overlap.
pub open spec fn offset_hit(a: SpriteView, b: SpriteView, dx: int, dy: int) -> bool {
    hit_at(a, b, overlap_left(a.pos, b.pos) + dx, overlap_top(a.pos, b.pos) + dy)
}

/// Whether column `i`, row `j` of the sampling grid lies in the overlap.
pub open spec fn sampled(a: SpriteView, b: SpriteView, stride: int, i: int, j: int) -> bool {
    &&& 0 <= i
    &&& 0 <= j
    &&& i * stride < overlap_width(a.pos, a.size, b.pos, b.size)
    &&& j * stride < overlap_height(a.pos, a.size, b.pos, b.size)
}

/// Whether both sprites are solid at column `i`, row `j` of the sampling grid.
pub open spec fn sample_hit(a: SpriteView, b: SpriteView, stride: int, i: int, j: int) -> bool {
    offset_hit(a, b, i * stride, j * stride)
}

/// Whether both sprites are solid at some sample point of their overlap.
pub open spec fn any_sample_hits(a: SpriteView, b: SpriteView, stride: int) -> bool {
    exists|i: int, j: int| sampled(a, b, stride, i, j) && #[trigger] sample_hit(a, b, stride, i, j)
}

/// Whether both sprites are solid at column `i` of the sampling grid, in the
/// row `dy` below the top of the overlap.
pub open spec fn column_hit(a: SpriteView, b: SpriteView, stride: int, i: int, dy: int) -> bool {
    offset_hit(a, b, i * stride, dy)
}

/// Whether both sprites are solid at some sample point of the row `dy` below
/// the top of the overlap.
pub open spec fn row_hits(a: SpriteView, b: SpriteView, stride: int, dy: int) -> bool {
    exists|i: int|
        0 <= i && i * stride < overlap_width(a.pos, a.size, b.pos, b.size) && #[trigger] column_hit(
            a,
            b,
            stride,
            i,
            dy,
        )
}

/// Whether row `j` of the sampling grid holds a hit.
pub open spec fn grid_row_hits(a: SpriteView, b: SpriteView, stride: int, j: int) -> bool {
    row_hits(a, b, stride, j * stride)
}

/// Whether some row of the sampling grid holds a hit.
pub open spec fn any_row_hits(a: SpriteView, b: SpriteView, stride: int) -> bool {
    exists|j: int|
        0 <= j && j * stride < overlap_height(a.pos, a.size, b.pos, b.size) && #[trigger] grid_row_hits(
            a,
            b,
            stride,
            j,
        )
}

/// Scanning row by row finds a hit exactly when some sample point is one.
pub proof fn lemma_rows_cover_samples(a: SpriteView, b: SpriteView, stride: int)
    ensures
        any_row_hits(a, b, stride) == any_sample_hits(a, b, stride),
{
    if any_row_hits(a, b, stride) {
        let j = choose|j: int|
            0 <= j && j * stride < overlap_height(a.pos, a.size, b.pos, b.size) && #[trigger] grid_row_hits(
                a,
                b,
                stride,
                j,
            );
        let i = choose|i: int|
            0 <= i && i * stride < overlap_width(a.pos, a.size, b.pos, b.size) && #[trigger] column_hit(
                a,
                b,
                stride,
                i,
                j * stride,
            );
        assert(sampled(a, b, stride, i, j) && sample_hit(a, b, stride, i, j));
    }
    if any_sample_hits(a, b, stride) {
        let (i, j) = choose|i: int, j: int|
            sampled(a, b, stride, i, j) && #[trigger] sample_hit(a, b, stride, i, j);
        assert(column_hit(a, b, stride, i, j * stride));
        assert(grid_row_hits(a, b, stride, j));
    }
}

/// Grid positions after position `k` lie at least one stride further on.
proof fn lemma_grid_step(k: int, i: int, stride: int)
    requires
        stride >= 1,
        i > k,
    ensures
        i * stride >= k * stride + stride,
        (k + 1) * stride == k * stride + stride,
{
    assert(i * stride >= k * stride + stride) by (nonlinear_arith)
        requires
            stride >= 1,
            i >= k + 1,
    ;
    assert((k + 1) * stride == k * stride + stride) by (nonlinear_arith);
}

/// How the rows of the overlap are visited.
#[derive(Clone, Copy, Debug, PartialEq, Eq, Structural)]
pub enum Strategy {
    /// Rows are handed to a pool of worker threads.
    Parallel,
    /// Rows are visited one after another on the calling thread.
    Sequential,
}

/// Two sprites whose bounding rectangles intersect, with their overlap and
/// the sampling stride.
#[derive(Debug)]
pub struct Scan {
    pub first: Sprite,
    pub second: Sprite,
    pub left: i64,
    pub top: i64,
    pub width: usize,
    pub height: usize,
    pub stride: usize,
}

impl Scan {
    /// The overlap is that of the two sprites and is not empty, and the
    /// stride is at least 1.
    pub open spec fn wf(&self) -> bool {
        &&& rects_intersect(self.first.pos, self.first.size, self.second.pos, self.second.size)
        &&& self.left == overlap_left(self.first.pos, self.second.pos)
        &&& self.top == overlap_top(self.first.pos, self.second.pos)
        &&& self.width == overlap_width(self.first.pos, self.first.size, self.second.pos, self.second.size)
        &&& self.height == overlap_height(
            self.first.pos,
            self.first.size,
            self.second.pos,
            self.second.size,
        )
        &&& self.stride >= 1
    }

    /// Whether both sprites are solid at the point `dx` to the right of and
    /// `dy` below the top-left corner of the overlap.
    pub fn point_hit(&self, dx: usize, dy: usize) -> (hit: bool)
        requires
            self.wf(),
            dx < self.width,
            dy < self.height,
        ensures
            hit == offset_hit(self.first@, self.second@, dx as int, dy as int),
    {
        let x: i64 = self.left + dx as i64;
        let y: i64 = self.top + dy as i64;
        self.first.solid_at(x, y) && self.second.solid_at(x, y)
    }

    /// Scans the row `dy` below the top of the overlap from left to right and
    /// stops at the first hit.
    pub fn row_hit(&self, dy: usize) -> (hit: bool)
        requires
            self.wf(),
            dy < self.height,
        ensures
            hit == row_hits(self.first@, self.second@, self.stride as int, dy as int),
    {
        let mut dx: usize = 0;
        let ghost mut k: int = 0;
        while dx < self.width
            invariant
                self.wf(),
                dy < self.height,
                0 <= k,
                dx == k * self.stride,
                dx < self.width,
                forall|i: int|
                    0 <= i < k ==> !#[trigger] column_hit(
                        self.first@,
                        self.second@,
                        self.stride as int,
                        i,
                        dy as int,
                    ),
            decreases self.width - dx,
        {
            if self.point_hit(dx, dy) {
                assert(column_hit(self.first@, self.second@, self.stride as int, k, dy as int));
                return true;
            }
            if self.stride >= self.width - dx {
                assert forall|i: int| 0 <= i && i * self.stride < self.width implies !#[trigger] column_hit(
                    self.first@,
                    self.second@,
                    self.stride as int,
                    i,
                    dy as int,
                ) by {
                    if i > k {
                        lemma_grid_step(k, i, self.stride as int);
                    }
                }
                return false;
            }
            proof {
                lemma_grid_step(k, k + 1, self.stride as int);
                k = k + 1;
            }
            dx = dx + self.stride;
        }
        false
    }

    /// Scans the overlap row by row on the calling thread and stops at the
    /// first hit.
    pub fn any_hit_sequential(&self) -> (hit: bool)
        requires
            self.wf(),
        ensures
            hit == any_sample_hits(self.first@, self.second@, self.stride as int),
    {
        let mut dy: usize = 0;
        let ghost mut k: int = 0;
        while dy < self.height
            invariant
                self.wf(),
                0 <= k,
                dy == k * self.stride,
                dy < self.height,
                forall|j: int|
                    0 <= j < k ==> !#[trigger] grid_row_hits(self.first@, self.second@, self.stride as int, j),
            decreases self.height - dy,
        {
            proof {
                lemma_rows_cover_samples(self.first@, self.second@, self.stride as int);
            }
            if self.row_hit(dy) {
                assert(grid_row_hits(self.first@, self.second@, self.stride as int, k));
                return true;
            }
            if self.stride >= self.height - dy {
                assert forall|j: int| 0 <= j && j * self.stride < self.height implies !#[trigger] grid_row_hits(
                    self.first@,
                    self.second@,
                    self.stride as int,
                    j,
                ) by {
                    if j > k {
                        lemma_grid_step(k, j, self.stride as int);
                    }
                }
                return false;
            }
            proof {
                lemma_grid_step(k, k + 1, self.stride as int);
                k = k + 1;
            }
            dy = dy + self.stride;
        }
        false
    }

    /// Scans the rows of the overlap on a pool of worker threads. The answer
    /// is that of the sequential scan, whichever row is found first.
    pub fn any_hit_parallel(&self) -> (hit: bool)
        requires
            self.wf(),
        ensures
            hit == any_sample_hits(self.first@, self.second@, self.stride as int),
    {
        proof {
            lemma_rows_cover_samples(self.first@, self.second@, self.stride as int);
        }
        any_row_parallel(self)
    }

    /// Scans the overlap with the given strategy. Both strategies give the
    /// same answer.
    pub fn any_hit(&self, strategy: Strategy) -> (hit: bool)
        requires
            self.wf(),
        ensures
            hit == any_sample_hits(self.first@, self.second@, self.stride as int),
    {
        match strategy {
            Strategy::Parallel => self.any_hit_parallel(),
            Strategy::Sequential => self.any_hit_sequential(),
        }
    }
}

/// Calls rayon's `into_par_iter`, `step_by` and `any` on the row offsets
/// `0, stride, 2 * stride, ...` below the overlap's height, testing each row
/// with `Scan::row_hit`.
///
/// Believed of rayon, not proved: `step_by` yields exactly those offsets, and
/// `any` returns `true` exactly when the test holds of at least one of them,
/// whatever the scheduling of the worker threads. A stride of 0 makes
/// `step_by` divide by zero and is excluded.
#[verifier::external_body]
fn any_row_parallel(scan: &Scan) -> (hit: bool)
    requires
        scan.wf(),
    ensures
        hit == any_row_hits(scan.first@, scan.second@, scan.stride as int),
{
    (0..scan.height).into_par_iter().step_by(scan.stride).any(|dy| scan.row_hit(dy))
}

} // verus!
