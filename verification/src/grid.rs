//! Geometry of the battlefield: its fixed size, cells, Chebyshev distance and
//! the neighbourhood of a cell.

use vstd::prelude::*;

verus! {

/// Width of the battlefield in cells.
pub const X: usize = 63;

/// Height of the battlefield in cells.
pub const Y: usize = 31;

/// Number of cells of the battlefield.
pub const CELLS: usize = 1953;

/// A cell `(x, y)` lies on the battlefield.
pub open spec fn in_grid(p: (usize, usize)) -> bool {
    p.0 < X && p.1 < Y
}

/// A cell lies on the battlefield and not on its border.
pub open spec fn interior(p: (usize, usize)) -> bool {
    0 < p.0 < X - 1 && 0 < p.1 < Y - 1
}

/// Position of a cell in a row-major layout of the battlefield.
pub open spec fn cell_index(p: (usize, usize)) -> int {
    p.1 * X + p.0
}

/// Lexicographic order on cells, `x` first: the order in which the index
/// sets of the world are walked.
pub open spec fn cell_lt(a: (usize, usize), b: (usize, usize)) -> bool {
    a.0 < b.0 || (a.0 == b.0 && a.1 < b.1)
}

/// Absolute difference of two coordinates.
pub open spec fn spec_gap(a: int, b: int) -> int {
    if a <= b {
        b - a
    } else {
        a - b
    }
}

/// Chebyshev distance: the larger of the two coordinate differences.
pub open spec fn spec_distance(a: (usize, usize), b: (usize, usize)) -> int {
    let dx = spec_gap(a.0 as int, b.0 as int);
    let dy = spec_gap(a.1 as int, b.1 as int);
    if dx >= dy {
        dx
    } else {
        dy
    }
}

pub fn in_bounds(p: (usize, usize)) -> (r: bool)
    ensures
        r == in_grid(p),
{
    p.0 < X && p.1 < Y
}

/// Row-major position of a cell of the battlefield.
pub fn index_of(p: (usize, usize)) -> (r: usize)
    requires
        in_grid(p),
    ensures
        r == cell_index(p),
        r < CELLS,
{
    p.1 * X + p.0
}

/// Chebyshev distance between two cells.
pub fn distance(a: (usize, usize), b: (usize, usize)) -> (r: usize)
    ensures
        r == spec_distance(a, b),
{
    let dx: usize = if a.0 <= b.0 { b.0 - a.0 } else { a.0 - b.0 };
    let dy: usize = if a.1 <= b.1 { b.1 - a.1 } else { a.1 - b.1 };
    if dx >= dy {
        dx
    } else {
        dy
    }
}

/// Distance and direction from `start` to `end` along one axis: the absolute
/// difference, and whether the coordinate grows.
pub fn make_delta(start: usize, end: usize) -> (r: (usize, bool))
    ensures
        r.0 == spec_gap(start as int, end as int),
        r.1 == (start < end),
{
    if start < end {
        (end - start, true)
    } else {
        (start - end, false)
    }
}

/// A coordinate moved by a signed step, held within the range of `usize`.
pub open spec fn spec_signed_add(u: usize, s: i8) -> usize {
    if u + s < 0 {
        0
    } else if u + s > usize::MAX {
        usize::MAX
    } else {
        (u + s) as usize
    }
}

/// Adds a signed step to a coordinate, saturating at both ends.
pub fn signed_add(u: usize, s: i8) -> (r: usize)
    ensures
        r == spec_signed_add(u, s),
{
    if s < 0 {
        let wide: i16 = s as i16;
        let back: usize = (0 - wide) as usize;
        if u >= back {
            u - back
        } else {
            0
        }
    } else {
        let forth: usize = s as usize;
        if usize::MAX - u >= forth {
            u + forth
        } else {
            usize::MAX
        }
    }
}

/// `q` is one of the up to eight cells of the battlefield that touch `p`.
pub open spec fn is_neighbor(p: (usize, usize), q: (usize, usize)) -> bool {
    in_grid(q) && spec_distance(p, q) == 1
}

/// The cells of the battlefield that touch `p`, sideways and diagonally, in
/// the order of `cell_lt`.
pub fn adjacency(p: (usize, usize)) -> (r: Vec<(usize, usize)>)
    requires
        in_grid(p),
    ensures
        forall|q: (usize, usize)| #[trigger] r@.contains(q) <==> is_neighbor(p, q),
        forall|i: int, j: int| 0 <= i < j < r@.len() ==> cell_lt(r@[i], r@[j]),
        r@.len() <= 8,
{
    let (x, y) = p;
    let x_lo: usize = if x > 0 { x - 1 } else { x };
    let x_hi: usize = if x + 1 < X { x + 1 } else { x };
    let y_lo: usize = if y > 0 { y - 1 } else { y };
    let y_hi: usize = if y + 1 < Y { y + 1 } else { y };
    let mut r: Vec<(usize, usize)> = Vec::new();
    let mut cx: usize = x_lo;
    while cx <= x_hi
        invariant
            in_grid(p),
            p == (x, y),
            x_lo == if x > 0 { x - 1 } else { x as int },
            x_hi == if x + 1 < X { x + 1 } else { x as int },
            y_lo == if y > 0 { y - 1 } else { y as int },
            y_hi == if y + 1 < Y { y + 1 } else { y as int },
            x_lo <= cx <= x_hi + 1,
            forall|q: (usize, usize)| #[trigger] r@.contains(q) <==> is_neighbor(p, q) && q.0 < cx,
            forall|i: int, j: int| 0 <= i < j < r@.len() ==> cell_lt(r@[i], r@[j]),
            r@.len() + (if x < cx { 1int } else { 0int }) <= 3 * (cx - x_lo),
        decreases x_hi + 1 - cx,
    {
        let mut cy: usize = y_lo;
        while cy <= y_hi
            invariant
                in_grid(p),
                p == (x, y),
                x_lo == if x > 0 { x - 1 } else { x as int },
                x_hi == if x + 1 < X { x + 1 } else { x as int },
                y_lo == if y > 0 { y - 1 } else { y as int },
                y_hi == if y + 1 < Y { y + 1 } else { y as int },
                x_lo <= cx <= x_hi,
                y_lo <= cy <= y_hi + 1,
                forall|q: (usize, usize)|
                    #[trigger] r@.contains(q) <==> is_neighbor(p, q) && cell_lt(q, (cx, cy)),
                forall|i: int, j: int| 0 <= i < j < r@.len() ==> cell_lt(r@[i], r@[j]),
                r@.len() + (if cell_lt(p, (cx, cy)) { 1int } else { 0int }) <= 3 * (cx - x_lo) + (cy
                    - y_lo),
            decreases y_hi + 1 - cy,
        {
            if cx != x || cy != y {
                proof {
                    assert forall|i: int| 0 <= i < r@.len() implies cell_lt(r@[i], (cx, cy)) by {
                        assert(r@.contains(r@[i]));
                    }
                }
                let ghost before = r@;
                r.push((cx, cy));
                proof {
                    assert(is_neighbor(p, (cx, cy)));
                    assert forall|q: (usize, usize)| #[trigger]
                        r@.contains(q) <==> is_neighbor(p, q) && cell_lt(q, (cx, (cy + 1) as usize)) by {
                        vstd::seq_lib::lemma_seq_contains_after_push(before, (cx, cy), q);
                    }
                }
            }
            cy = cy + 1;
        }
        cx = cx + 1;
    }
    r
}

} // verus!
