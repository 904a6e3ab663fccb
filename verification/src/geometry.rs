//! Grid coordinates and discs of tiles.

use vstd::prelude::*;

verus! {

/// A tile coordinate: column `x`, row `y`.
#[derive(Clone, Copy, PartialEq, Eq, Structural, Debug)]
pub struct Position {
    pub x: i32,
    pub y: i32,
}

/// Squared Euclidean distance between two tiles.
pub open spec fn distance_squared(a: Position, b: Position) -> int {
    (a.x - b.x) * (a.x - b.x) + (a.y - b.y) * (a.y - b.y)
}

/// `p` lies at Euclidean distance at most `radius` from `center`.
pub open spec fn in_disc(center: Position, radius: int, p: Position) -> bool {
    radius >= 0 && distance_squared(center, p) <= radius * radius
}

/// Column-major order on tiles: by `x`, then by `y`.
pub open spec fn column_major_before(a: Position, b: Position) -> bool {
    a.x < b.x || (a.x == b.x && a.y < b.y)
}

/// The two tiles touch, diagonals included, or coincide.
pub open spec fn adjacent(a: Position, b: Position) -> bool {
    distance_squared(a, b) <= 2
}

/// A number between `-r` and `r` has a square of at most `r * r`.
pub proof fn lemma_square_bound(d: int, r: int)
    requires
        -r <= d <= r,
    ensures
        0 <= d * d <= r * r,
{
    assert(0 <= d * d <= r * r) by (nonlinear_arith)
        requires
            -r <= d <= r,
    ;
}

/// A number beyond `-r` or `r` has a square above `r * r`.
pub proof fn lemma_square_grows(d: int, r: int)
    requires
        0 <= r,
        d < -r || d > r,
    ensures
        d * d > r * r,
{
    assert(d * d > r * r) by (nonlinear_arith)
        requires
            0 <= r,
            d < -r || d > r,
    ;
}

/// `s` lists its tiles in column-major order, none of them twice.
pub open spec fn column_major(s: Seq<Position>) -> bool {
    forall|i: int, j: int| 0 <= i < j < s.len() ==> column_major_before(s[i], s[j])
}

/// `s` lists exactly the tiles within `radius` of `center`, column by column.
pub open spec fn lists_disc(s: Seq<Position>, center: Position, radius: int) -> bool {
    column_major(s) && forall|p: Position| s.contains(p) <==> in_disc(center, radius, p)
}

/// The tiles within `radius` of `center`, column by column.
pub open spec fn disc(center: Position, radius: int) -> Seq<Position> {
    choose|s: Seq<Position>| lists_disc(s, center, radius)
}

/// Two column-major listings of the same tiles are the same listing.
pub proof fn lemma_column_major_unique(a: Seq<Position>, b: Seq<Position>)
    requires
        column_major(a),
        column_major(b),
        forall|p: Position| a.contains(p) <==> b.contains(p),
    ensures
        a == b,
    decreases a.len(),
{
    if a.len() == 0 {
        if b.len() > 0 {
            assert(b.contains(b[0]));
        }
        assert(a =~= b);
    } else {
        let top = a.last();
        assert(a.contains(top));
        let k = choose|k: int| 0 <= k < b.len() && b[k] == top;
        assert(b.contains(b.last()));
        let m = choose|m: int| 0 <= m < a.len() && a[m] == b.last();
        assert(k == b.len() - 1) by {
            if k < b.len() - 1 {
                assert(column_major_before(b[k], b.last()));
                if m < a.len() - 1 {
                    assert(column_major_before(a[m], a.last()));
                }
            }
        }
        let a0 = a.drop_last();
        let b0 = b.drop_last();
        assert forall|p: Position| a0.contains(p) <==> b0.contains(p) by {
            if a0.contains(p) {
                let i = choose|i: int| 0 <= i < a0.len() && a0[i] == p;
                assert(a[i] == p);
                assert(column_major_before(a[i], a.last()));
                assert(a.contains(p));
                let j = choose|j: int| 0 <= j < b.len() && b[j] == p;
                assert(b0[j] == p);
            }
            if b0.contains(p) {
                let i = choose|i: int| 0 <= i < b0.len() && b0[i] == p;
                assert(b[i] == p);
                assert(column_major_before(b[i], b.last()));
                assert(b.contains(p));
                let j = choose|j: int| 0 <= j < a.len() && a[j] == p;
                assert(a0[j] == p);
            }
        }
        lemma_column_major_unique(a0, b0);
        assert(a =~= a0.push(top));
        assert(b =~= b0.push(top));
    }
}

/// Whether `p` lies within `radius` of `center`, in exact integer arithmetic.
pub fn within_radius(center: Position, radius: i32, p: Position) -> (r: bool)
    ensures
        r == in_disc(center, radius as int, p),
{
    if radius < 0 {
        return false;
    }
    let dx: i128 = center.x as i128 - p.x as i128;
    let dy: i128 = center.y as i128 - p.y as i128;
    let rr: i128 = radius as i128;
    proof {
        lemma_square_bound(dx as int, 0x1_0000_0000);
        lemma_square_bound(dy as int, 0x1_0000_0000);
        lemma_square_bound(rr as int, 0x1_0000_0000);
    }
    dx * dx + dy * dy <= rr * rr
}

/// Whether two tiles touch or coincide.
pub fn is_adjacent(a: Position, b: Position) -> (r: bool)
    ensures
        r == adjacent(a, b),
{
    let dx: i128 = a.x as i128 - b.x as i128;
    let dy: i128 = a.y as i128 - b.y as i128;
    proof {
        lemma_square_bound(dx as int, 0x1_0000_0000);
        lemma_square_bound(dy as int, 0x1_0000_0000);
    }
    dx * dx + dy * dy <= 2
}

/// Every tile within Euclidean distance `radius` of `start_point`, column by
/// column.  A negative radius gives no tile.
pub fn points_in_circle(start_point: Position, radius: i32) -> (targets: Vec<Position>)
    ensures
        lists_disc(targets@, start_point, radius as int),
        targets@ == disc(start_point, radius as int),
{
    let targets = list_disc(start_point, radius);
    proof {
        assert(lists_disc(targets@, start_point, radius as int));
        assert(lists_disc(disc(start_point, radius as int), start_point, radius as int));
        lemma_column_major_unique(targets@, disc(start_point, radius as int));
    }
    targets
}

fn list_disc(start_point: Position, radius: i32) -> (targets: Vec<Position>)
    ensures
        forall|p: Position| targets@.contains(p) <==> in_disc(start_point, radius as int, p),
        forall|i: int, j: int|
            0 <= i < j < targets.len() ==> column_major_before(targets[i], targets[j]),
{
    let mut targets: Vec<Position> = Vec::new();
    if radius < 0 {
        return targets;
    }
    let r: i64 = radius as i64;
    let cx: i64 = start_point.x as i64;
    let cy: i64 = start_point.y as i64;
    let x_lo: i64 = if cx - r < -0x8000_0000 { -0x8000_0000 } else { cx - r };
    let x_hi: i64 = if cx + r > 0x7FFF_FFFF { 0x7FFF_FFFF } else { cx + r };
    let y_lo: i64 = if cy - r < -0x8000_0000 { -0x8000_0000 } else { cy - r };
    let y_hi: i64 = if cy + r > 0x7FFF_FFFF { 0x7FFF_FFFF } else { cy + r };
    let mut x: i64 = x_lo;
    proof {
        assert forall|p: Position| !(in_disc(start_point, radius as int, p) && p.x < x) by {
            if p.x < x {
                lemma_square_grows(start_point.x - p.x, r as int);
                lemma_square_bound(start_point.y - p.y, 0x1_0000_0000);
            }
        }
    }
    while x <= x_hi
        invariant
            0 <= r == radius,
            cx == start_point.x,
            cy == start_point.y,
            x_lo == (if cx - r < -0x8000_0000 { -0x8000_0000 } else { cx - r }),
            x_hi == (if cx + r > 0x7FFF_FFFF { 0x7FFF_FFFF } else { cx + r }),
            y_lo == (if cy - r < -0x8000_0000 { -0x8000_0000 } else { cy - r }),
            y_hi == (if cy + r > 0x7FFF_FFFF { 0x7FFF_FFFF } else { cy + r }),
            x_lo <= x <= x_hi + 1,
            forall|p: Position|
                targets@.contains(p) <==> in_disc(start_point, radius as int, p) && p.x < x,
            forall|i: int, j: int|
                0 <= i < j < targets.len() ==> column_major_before(targets[i], targets[j]),
        decreases x_hi + 1 - x,
    {
        let mut y: i64 = y_lo;
        proof {
            assert forall|p: Position|
                !(in_disc(start_point, radius as int, p) && p.x == x && p.y < y) by {
                if p.y < y {
                    lemma_square_grows(start_point.y - p.y, r as int);
                    lemma_square_bound(start_point.x - p.x, 0x1_0000_0000);
                }
            }
        }
        while y <= y_hi
            invariant
                0 <= r == radius,
                cx == start_point.x,
                cy == start_point.y,
                y_lo == (if cy - r < -0x8000_0000 { -0x8000_0000 } else { cy - r }),
                y_hi == (if cy + r > 0x7FFF_FFFF { 0x7FFF_FFFF } else { cy + r }),
                -0x8000_0000 <= x <= 0x7FFF_FFFF,
                y_lo <= y <= y_hi + 1,
                forall|p: Position|
                    targets@.contains(p) <==> in_disc(start_point, radius as int, p) && (p.x < x
                        || (p.x == x && p.y < y)),
                forall|i: int, j: int|
                    0 <= i < j < targets.len() ==> column_major_before(targets[i], targets[j]),
            decreases y_hi + 1 - y,
        {
            let candidate = Position { x: x as i32, y: y as i32 };
            if within_radius(start_point, radius, candidate) {
                let ghost before = targets@;
                targets.push(candidate);
                proof {
                    assert forall|p: Position|
                        targets@.contains(p) <==> in_disc(start_point, radius as int, p) && (p.x < x
                            || (p.x == x && p.y < y + 1)) by {
                        if targets@.contains(p) {
                            let k = choose|k: int| 0 <= k < targets@.len() && targets@[k] == p;
                            if k < before.len() {
                                assert(before[k] == p);
                                assert(before.contains(p));
                            }
                        }
                        if in_disc(start_point, radius as int, p) && (p.x < x || (p.x == x && p.y
                            < y + 1)) {
                            if p == candidate {
                                assert(targets@[before.len() as int] == p);
                            } else {
                                assert(before.contains(p));
                                let k = choose|k: int| 0 <= k < before.len() && before[k] == p;
                                assert(targets@[k] == p);
                            }
                        }
                    }
                    assert forall|i: int, j: int| 0 <= i < j < targets.len() implies column_major_before(
                        targets[i],
                        targets[j],
                    ) by {
                        if j == before.len() {
                            assert(before[i] == targets[i]);
                            assert(before.contains(targets[i]));
                        } else {
                            assert(before[i] == targets[i] && before[j] == targets[j]);
                        }
                    }
                }
            }
            y = y + 1;
        }
        proof {
            // No tile of this column lies in the disc outside [y_lo, y_hi].
            assert forall|p: Position|
                targets@.contains(p) <==> in_disc(start_point, radius as int, p) && p.x < x + 1 by {
                if in_disc(start_point, radius as int, p) && p.x == x && !(p.y < y) {
                    lemma_square_grows(start_point.y - p.y, r as int);
                    lemma_square_bound(start_point.x - p.x, 0x1_0000_0000);
                }
            }
        }
        x = x + 1;
    }
    proof {
        assert forall|p: Position| targets@.contains(p) <==> in_disc(start_point, radius as int, p) by {
            if in_disc(start_point, radius as int, p) && !(p.x < x) {
                lemma_square_grows(start_point.x - p.x, r as int);
                lemma_square_bound(start_point.y - p.y, 0x1_0000_0000);
            }
        }
    }
    targets
}

} // verus!
