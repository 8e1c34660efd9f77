use vstd::prelude::*;
use crate::constants::{CELLS, SECTORS, SYSTEMS};

verus! {

/// Flat cell index of sector (x, y) in system (sx, sy).
pub open spec fn index_spec(x: int, y: int, sx: int, sy: int) -> int {
    x + 10 * (y + 10 * (sx + 10 * sy))
}

/// The position addressed by a flat cell index: the inverse of `index_spec`.
pub open spec fn position_spec(i: int) -> (int, int, int, int) {
    (i % 10, (i / 10) % 10, (i / 100) % 10, i / 1000)
}

pub open spec fn coord_ok(c: int) -> bool {
    0 <= c < 10
}

/// Every in-range position has exactly one index below 10000, and the index gives
/// the position back.
pub proof fn lemma_index_bijective(x: int, y: int, sx: int, sy: int, x2: int, y2: int, sx2: int, sy2: int)
    requires
        coord_ok(x), coord_ok(y), coord_ok(sx), coord_ok(sy),
        coord_ok(x2), coord_ok(y2), coord_ok(sx2), coord_ok(sy2),
    ensures
        0 <= index_spec(x, y, sx, sy) < 10000,
        position_spec(index_spec(x, y, sx, sy)) == (x, y, sx, sy),
        index_spec(x, y, sx, sy) == index_spec(x2, y2, sx2, sy2) ==> (x, y, sx, sy) == (x2, y2, sx2, sy2),
{
    let i = index_spec(x, y, sx, sy);
    assert(i == x + 10 * y + 100 * sx + 1000 * sy);
    assert(i % 10 == x && i / 10 == y + 10 * sx + 100 * sy) by (nonlinear_arith)
        requires i == x + 10 * y + 100 * sx + 1000 * sy, 0 <= x < 10, 0 <= y < 10, 0 <= sx < 10, 0 <= sy < 10;
    assert((i / 10) % 10 == y && i / 100 == sx + 10 * sy) by (nonlinear_arith)
        requires i / 10 == y + 10 * sx + 100 * sy, 0 <= y < 10, 0 <= sx < 10, 0 <= sy < 10;
    assert((i / 100) % 10 == sx && i / 1000 == sy) by (nonlinear_arith)
        requires i / 100 == sx + 10 * sy, 0 <= sx < 10, 0 <= sy < 10;
    let j = index_spec(x2, y2, sx2, sy2);
    assert(j == x2 + 10 * y2 + 100 * sx2 + 1000 * sy2);
    assert(j % 10 == x2 && j / 10 == y2 + 10 * sx2 + 100 * sy2) by (nonlinear_arith)
        requires j == x2 + 10 * y2 + 100 * sx2 + 1000 * sy2, 0 <= x2 < 10, 0 <= y2 < 10, 0 <= sx2 < 10, 0 <= sy2 < 10;
    assert((j / 10) % 10 == y2 && j / 100 == sx2 + 10 * sy2) by (nonlinear_arith)
        requires j / 10 == y2 + 10 * sx2 + 100 * sy2, 0 <= y2 < 10, 0 <= sx2 < 10, 0 <= sy2 < 10;
    assert((j / 100) % 10 == sx2 && j / 1000 == sy2) by (nonlinear_arith)
        requires j / 100 == sx2 + 10 * sy2, 0 <= sx2 < 10, 0 <= sy2 < 10;
}

/// Flat cell index of sector (x, y) in system (sx, sy)
pub fn index(x: usize, y: usize, sx: usize, sy: usize) -> (r: usize)
    requires
        x < SECTORS, y < SECTORS, sx < SYSTEMS, sy < SYSTEMS,
    ensures
        r == index_spec(x as int, y as int, sx as int, sy as int),
        r < CELLS,
{
    x + SECTORS * (y + SECTORS * (sx + SYSTEMS * sy))
}

/// Squared Euclidean distance between two sectors
pub open spec fn dist2(x0: int, y0: int, x1: int, y1: int) -> int {
    (x1 - x0) * (x1 - x0) + (y1 - y0) * (y1 - y0)
}

pub fn distance_squared(x0: usize, y0: usize, x1: usize, y1: usize) -> (r: u64)
    requires
        x0 < SECTORS, y0 < SECTORS, x1 < SECTORS, y1 < SECTORS,
    ensures
        r == dist2(x0 as int, y0 as int, x1 as int, y1 as int),
        r <= 162,
{
    let dx: u64 = if x0 > x1 { (x0 - x1) as u64 } else { (x1 - x0) as u64 };
    let dy: u64 = if y0 > y1 { (y0 - y1) as u64 } else { (y1 - y0) as u64 };
    assert(dx * dx <= 81 && dy * dy <= 81) by (nonlinear_arith)
        requires dx < 10, dy < 10;
    assert(dx * dx == (x1 - x0) * (x1 - x0)) by (nonlinear_arith)
        requires dx == x0 - x1 || dx == x1 - x0;
    assert(dy * dy == (y1 - y0) * (y1 - y0)) by (nonlinear_arith)
        requires dy == y0 - y1 || dy == y1 - y0;
    dx * dx + dy * dy
}

/// `k` is the square root of `num / den` rounded to the nearest integer.
pub open spec fn rounds_to(k: int, num: int, den: int) -> bool {
    &&& k >= 0
    &&& (k == 0 || (2 * k - 1) * (2 * k - 1) * den <= 4 * num)
    &&& 4 * num < (2 * k + 1) * (2 * k + 1) * den
}

/// Only one integer is the rounded square root of `num / den`.
pub proof fn lemma_rounds_unique(k1: int, k2: int, num: int, den: int)
    requires
        den > 0,
        rounds_to(k1, num, den),
        rounds_to(k2, num, den),
    ensures
        k1 == k2,
{
    if k1 < k2 {
        assert((2 * k1 + 1) * (2 * k1 + 1) * den <= (2 * k2 - 1) * (2 * k2 - 1) * den) by (nonlinear_arith)
            requires k1 >= 0, k2 >= k1 + 1, den > 0;
    } else if k2 < k1 {
        assert((2 * k2 + 1) * (2 * k2 + 1) * den <= (2 * k1 - 1) * (2 * k1 - 1) * den) by (nonlinear_arith)
            requires k2 >= 0, k1 >= k2 + 1, den > 0;
    }
}

/// The square root of `num / den`, rounded to the nearest integer
pub open spec fn round_spec(num: int, den: int) -> int {
    choose|k: int| rounds_to(k, num, den)
}

/// The square root of `num / den`, rounded to the nearest integer.
pub fn round_root(num: u64, den: u64) -> (k: u64)
    requires
        0 < den <= 100_000,
        num <= 400 * den,
    ensures
        rounds_to(k as int, num as int, den as int),
        k == round_spec(num as int, den as int),
        k <= 20,
{
    let mut k: u64 = 0;
    while k < 25
        invariant
            0 < den <= 100_000,
            num <= 400 * den,
            k <= 25,
            k == 0 || (2 * k - 1) * (2 * k - 1) * den <= 4 * num,
        decreases 25 - k,
    {
        let a: u64 = 2 * k + 1;
        assert(a * a <= 2601) by (nonlinear_arith)
            requires a <= 51;
        let sq: u64 = a * a;
        assert(sq * den <= 2601 * 100_000) by (nonlinear_arith)
            requires sq <= 2601, den <= 100_000;
        if 4 * num < sq * den {
            if k > 20 {
                assert(false) by (nonlinear_arith)
                    requires k > 20, den > 0, (2 * k - 1) * (2 * k - 1) * den <= 4 * num, num <= 400 * den;
            }
            proof {
                assert(rounds_to(k as int, num as int, den as int));
                let c = round_spec(num as int, den as int);
                assert(rounds_to(c, num as int, den as int));
                lemma_rounds_unique(c, k as int, num as int, den as int);
            }
            return k;
        }
        k = k + 1;
    }
    assert(false) by (nonlinear_arith)
        requires k == 25, (2 * k - 1) * (2 * k - 1) * den <= 4 * num, num <= 400 * den, den > 0;
    k
}

/// Sectors adjacent to (x, y) within one system (the up to eight surrounding cells),
/// in the order in which they are searched: columns from the right, and within a column
/// rows from the bottom.
pub open spec fn adjacent_spec(x: int, y: int) -> Seq<(usize, usize)> {
    adjacent_columns(x, y, if x + 1 < 10 { x + 1 } else { 9 })
}

pub open spec fn adjacent_columns(x: int, y: int, i: int) -> Seq<(usize, usize)>
    decreases i - x + 2,
{
    if i < 0 || i < x - 1 {
        seq![]
    } else {
        adjacent_rows(x, y, i, if y + 1 < 10 { y + 1 } else { 9 }) + adjacent_columns(x, y, i - 1)
    }
}

pub open spec fn adjacent_rows(x: int, y: int, i: int, j: int) -> Seq<(usize, usize)>
    decreases j - y + 2,
{
    if j < 0 || j < y - 1 {
        seq![]
    } else if i == x && j == y {
        adjacent_rows(x, y, i, j - 1)
    } else {
        seq![(i as usize, j as usize)] + adjacent_rows(x, y, i, j - 1)
    }
}

/// The sectors adjacent to (x, y), in search order
pub fn adjacent(x: usize, y: usize) -> (r: Vec<(usize, usize)>)
    requires
        x < SECTORS, y < SECTORS,
    ensures
        r@ == adjacent_spec(x as int, y as int),
        forall|k: int| 0 <= k < r@.len() ==> r@[k].0 < SECTORS && r@[k].1 < SECTORS,
{
    let xmax: usize = if x + 1 < SECTORS { x + 1 } else { SECTORS - 1 };
    let ymax: usize = if y + 1 < SECTORS { y + 1 } else { SECTORS - 1 };
    let xmin: usize = if x > 0 { x - 1 } else { 0 };
    let ymin: usize = if y > 0 { y - 1 } else { 0 };
    let mut coords: Vec<(usize, usize)> = Vec::new();
    let mut i: usize = xmax + 1;
    while i > xmin
        invariant
            x < SECTORS, y < SECTORS, xmin <= i <= xmax + 1,
            xmax == (if x + 1 < 10 { x + 1 } else { 9 }),
            ymax == (if y + 1 < 10 { y + 1 } else { 9 }),
            xmin == (if x > 0 { x - 1 } else { 0 }),
            ymin == (if y > 0 { y - 1 } else { 0 }),
            coords@ + adjacent_columns(x as int, y as int, i - 1) == adjacent_spec(x as int, y as int),
            forall|k: int| 0 <= k < coords@.len() ==> coords@[k].0 < SECTORS && coords@[k].1 < SECTORS,
        decreases i,
    {
        i = i - 1;
        let ghost before = coords@;
        let mut j: usize = ymax + 1;
        while j > ymin
            invariant
                x < SECTORS, y < SECTORS, xmin <= i <= xmax, ymin <= j <= ymax + 1,
                xmax < SECTORS, ymax < SECTORS,
                ymin == (if y > 0 { y - 1 } else { 0 }),
                coords@ + adjacent_rows(x as int, y as int, i as int, j - 1) == before + adjacent_rows(
                    x as int, y as int, i as int, ymax as int),
                forall|k: int| 0 <= k < coords@.len() ==> coords@[k].0 < SECTORS && coords@[k].1 < SECTORS,
            decreases j,
        {
            j = j - 1;
            if i != x || j != y {
                coords.push((i, j));
            }
            assert(coords@ + adjacent_rows(x as int, y as int, i as int, j - 1) == before + adjacent_rows(
                x as int, y as int, i as int, ymax as int));
        }
        assert(adjacent_rows(x as int, y as int, i as int, j - 1) =~= seq![]);
        assert(coords@ + adjacent_columns(x as int, y as int, i - 1) == adjacent_spec(x as int, y as int));
    }
    assert(adjacent_columns(x as int, y as int, i - 1) =~= seq![]);
    assert(coords@ =~= coords@ + seq![]);
    coords
}

} // verus!
