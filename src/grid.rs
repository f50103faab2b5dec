//! The zero-filled k-space grid: acquired readout lines placed at their
//! phase-encode cells of a dense grid, every other cell zero. Samples are carried
//! as the bit patterns of 32-bit floats, which placement copies unchanged.
use vstd::prelude::*;
use vstd::arithmetic::div_mod::lemma_fundamental_div_mod_converse;

verus! {

/// The last line whose phase-encode cell is `(ky, kz)`, or -1 when there is none.
pub open spec fn last_line(idx: Seq<(usize, usize)>, ky: int, kz: int) -> int
    decreases idx.len(),
{
    if idx.len() == 0 {
        -1
    } else if idx.last().0 == ky && idx.last().1 == kz {
        idx.len() - 1
    } else {
        last_line(idx.drop_last(), ky, kz)
    }
}

/// Where element `t` of the row at cell `(ky, kz)` lies in a grid of `size` by `size`
/// cells of `row` elements, in C order.
pub open spec fn cell_pos(size: int, row: int, ky: int, kz: int, t: int) -> int {
    (ky * size + kz) * row + t
}

/// The value that a zero-filled grid holds at element `t` of cell `(ky, kz)`: that
/// element of the last line placed there, or zero.
pub open spec fn filled(raw: Seq<u32>, idx: Seq<(usize, usize)>, row: int, ky: int, kz: int, t: int) -> u32 {
    let k = last_line(idx, ky, kz);
    if k < 0 {
        0
    } else {
        raw[k * row + t]
    }
}

pub open spec fn in_grid(idx: Seq<(usize, usize)>, size: int) -> bool {
    forall|i: int| 0 <= i < idx.len() ==> (#[trigger] idx[i]).0 < size && idx[i].1 < size
}

/// Why a grid cannot be filled.
#[derive(PartialEq, Eq, Debug, Clone, Copy, Structural)]
pub enum GridError {
    /// The table lists more lines than the raw data holds.
    TooManyLines,
    /// A table entry lies outside the grid.
    OutOfGrid,
    /// The grid does not fit in memory's address range.
    TooLarge,
}

proof fn lemma_pos_bound(size: int, row: int, a: int, b: int, t: int)
    requires
        0 <= a < size,
        0 <= b < size,
        0 <= t < row,
    ensures
        0 <= a * size + b < size * size,
        0 <= cell_pos(size, row, a, b, t) < size * size * row,
        cell_pos(size, row, a, b, t) + (row - t) <= size * size * row,
{
    assert(0 <= a * size + b < size * size) by (nonlinear_arith)
        requires 0 <= a < size, 0 <= b < size;
    let c = a * size + b;
    assert(0 <= c * row + t && c * row + t + (row - t) <= size * size * row) by (nonlinear_arith)
        requires 0 <= c < size * size, 0 <= t < row;
}

proof fn lemma_pos_injective(size: int, row: int, a: int, b: int, t: int, a2: int, b2: int, t2: int)
    requires
        0 <= a < size,
        0 <= b < size,
        0 <= t < row,
        0 <= a2 < size,
        0 <= b2 < size,
        0 <= t2 < row,
        cell_pos(size, row, a, b, t) == cell_pos(size, row, a2, b2, t2),
    ensures
        a == a2 && b == b2 && t == t2,
{
    let x = cell_pos(size, row, a, b, t);
    lemma_fundamental_div_mod_converse(x, row, a * size + b, t);
    lemma_fundamental_div_mod_converse(x, row, a2 * size + b2, t2);
    let c = a * size + b;
    lemma_fundamental_div_mod_converse(c, size, a, b);
    lemma_fundamental_div_mod_converse(c, size, a2, b2);
}

proof fn lemma_line_bound(i: int, row: int, t: int, n: int)
    requires
        0 <= i < n,
        0 <= t < row,
    ensures
        0 <= i * row + t < n * row,
{
    assert(0 <= i * row + t < n * row) by (nonlinear_arith)
        requires 0 <= i < n, 0 <= t < row;
}

/// `r` is what zero-filling `raw` with lines of `row` elements onto a `size` by `size`
/// grid at the cells `idx` gives: the filled grid, or the error for inputs it cannot take.
pub open spec fn zero_fill_result(raw: Seq<u32>, row: usize, size: usize, idx: Seq<(usize, usize)>, r: Result<Vec<u32>, GridError>) -> bool {
    &&& match r {
            Ok(g) => {
                &&& g@.len() == size * size * row
                &&& forall|ky: int, kz: int, t: int|
                    0 <= ky < size && 0 <= kz < size && 0 <= t < row ==> g@[cell_pos(
                        size as int,
                        row as int,
                        ky,
                        kz,
                        t,
                    )] == #[trigger] filled(raw, idx, row as int, ky, kz, t)
            },
            Err(GridError::TooLarge) => size * size * row > usize::MAX,
            Err(GridError::OutOfGrid) => size * size * row <= usize::MAX && !in_grid(idx, size as int),
            Err(GridError::TooManyLines) => size * size * row <= usize::MAX && in_grid(idx, size as int)
                && idx.len() * row > raw.len(),
        }
    &&& r.is_ok() <==> (size * size * row <= usize::MAX && in_grid(idx, size as int) && idx.len() * row
            <= raw.len())
}

/// Places line `i` of `raw` (elements `i * row` up to `(i + 1) * row`) at the cell that
/// `idx[i]` names in a zero grid of `size` by `size` cells of `row` elements; a later
/// line at the same cell replaces an earlier one. Lines past the table's end are left out.
pub fn zero_fill(raw: &Vec<u32>, row: usize, size: usize, idx: &Vec<(usize, usize)>) -> (r: Result<Vec<u32>, GridError>)
    ensures
        zero_fill_result(raw@, row, size, idx@, r),
{
    proof {
        assert((size as int) * (size as int) <= u128::MAX) by (nonlinear_arith)
            requires size <= u64::MAX;
    }
    let ss: u128 = (size as u128) * (size as u128);
    if row > 0 && ss > usize::MAX as u128 {
        proof {
            assert(size * size * row > usize::MAX) by (nonlinear_arith)
                requires size * size > usize::MAX, row >= 1;
        }
        return Err(GridError::TooLarge);
    }
    proof {
        assert(ss * row <= u128::MAX) by (nonlinear_arith)
            requires ss <= usize::MAX || row == 0, row <= usize::MAX;
    }
    if ss * (row as u128) > usize::MAX as u128 {
        return Err(GridError::TooLarge);
    }
    proof {
        if row > 0 {
            assert(size * size <= size * size * row) by (nonlinear_arith)
                requires row >= 1;
        }
    }
    let total: usize = (ss * (row as u128)) as usize;
    let n = idx.len();
    let mut i: usize = 0;
    while i < n
        invariant
            n == idx@.len(),
            i <= n,
            size * size * row <= usize::MAX,
            forall|j: int| 0 <= j < i ==> (#[trigger] idx@[j]).0 < size && idx@[j].1 < size,
        decreases n - i,
    {
        if idx[i].0 >= size || idx[i].1 >= size {
            proof {
                assert(!in_grid(idx@, size as int)) by {
                    assert(idx@[i as int].0 >= size || idx@[i as int].1 >= size);
                }
            }
            return Err(GridError::OutOfGrid);
        }
        i = i + 1;
    }
    proof {
        assert((n as int) * (row as int) <= u128::MAX) by (nonlinear_arith)
            requires n <= u64::MAX, row <= u64::MAX;
    }
    if (n as u128) * (row as u128) > raw.len() as u128 {
        return Err(GridError::TooManyLines);
    }
    let mut g: Vec<u32> = Vec::new();
    let mut p: usize = 0;
    while p < total
        invariant
            p <= total,
            g@.len() == p,
            forall|q: int| 0 <= q < p ==> g@[q] == 0,
        decreases total - p,
    {
        g.push(0);
        p = p + 1;
    }
    proof {
        assert(idx@.take(0) == Seq::<(usize, usize)>::empty());
        assert forall|ky: int, kz: int, t: int|
            0 <= ky < size && 0 <= kz < size && 0 <= t < row implies g@[cell_pos(
                size as int,
                row as int,
                ky,
                kz,
                t,
            )] == #[trigger] filled(raw@, idx@.take(0), row as int, ky, kz, t) by {
            lemma_pos_bound(size as int, row as int, ky, kz, t);
        }
    }
    let mut i: usize = 0;
    while i < n
        invariant
            n == idx@.len(),
            total == size * size * row,
            row > 0 ==> size * size <= usize::MAX,
            i <= n,
            n * row <= raw@.len(),
            raw@.len() <= usize::MAX,
            in_grid(idx@, size as int),
            g@.len() == total,
            forall|ky: int, kz: int, t: int|
                0 <= ky < size && 0 <= kz < size && 0 <= t < row ==> g@[cell_pos(
                    size as int,
                    row as int,
                    ky,
                    kz,
                    t,
                )] == #[trigger] filled(raw@, idx@.take(i as int), row as int, ky, kz, t),
        decreases n - i,
    {
        let (ky, kz) = idx[i];
        proof {
            assert(idx@[i as int].0 < size && idx@[i as int].1 < size);
            assert(idx@.take(i + 1).drop_last() == idx@.take(i as int));
            assert(idx@.take(i + 1).last() == idx@[i as int]);
        }
        let mut t: usize = 0;
        while t < row
            invariant
                n == idx@.len(),
                total == size * size * row,
                i < n,
                n * row <= raw@.len(),
                raw@.len() <= usize::MAX,
                row > 0 ==> size * size <= usize::MAX,
                ky < size,
                kz < size,
                idx@[i as int] == (ky, kz),
                t <= row,
                g@.len() == total,
                forall|a: int, b: int, u: int|
                    0 <= a < size && 0 <= b < size && 0 <= u < row ==> g@[#[trigger] cell_pos(
                        size as int,
                        row as int,
                        a,
                        b,
                        u,
                    )] == (if a == ky && b == kz && u < t {
                        raw@[i * row + u]
                    } else {
                        filled(raw@, idx@.take(i as int), row as int, a, b, u)
                    }),
            decreases row - t,
        {
            proof {
                lemma_pos_bound(size as int, row as int, ky as int, kz as int, t as int);
                lemma_line_bound(i as int, row as int, t as int, n as int);
                assert(i * row + t < raw@.len());
                assert(i * row <= i * row + t);
            }
            let base: usize = (ky * size + kz) * row;
            let start: usize = i * row;
            let v = raw[start + t];
            let ghost before = g@;
            g.set(base + t, v);
            proof {
                assert forall|a: int, b: int, u: int|
                    0 <= a < size && 0 <= b < size && 0 <= u < row implies g@[#[trigger] cell_pos(
                        size as int,
                        row as int,
                        a,
                        b,
                        u,
                    )] == (if a == ky && b == kz && u < t + 1 {
                        raw@[i * row + u]
                    } else {
                        filled(raw@, idx@.take(i as int), row as int, a, b, u)
                    }) by {
                    lemma_pos_bound(size as int, row as int, a, b, u);
                    if cell_pos(size as int, row as int, a, b, u) == base + t {
                        lemma_pos_injective(size as int, row as int, a, b, u, ky as int, kz as int, t as int);
                    } else {
                        assert(g@[cell_pos(size as int, row as int, a, b, u)] == before[cell_pos(size as int, row as int, a, b, u)]);
                        if a == ky && b == kz && u == t {
                            assert(cell_pos(size as int, row as int, a, b, u) == base + t);
                        }
                    }
                }
            }
            t = t + 1;
        }
        proof {
            assert forall|a: int, b: int, u: int|
                0 <= a < size && 0 <= b < size && 0 <= u < row implies g@[cell_pos(
                    size as int,
                    row as int,
                    a,
                    b,
                    u,
                )] == #[trigger] filled(raw@, idx@.take(i + 1), row as int, a, b, u) by {
                assert(g@[cell_pos(size as int, row as int, a, b, u)] == (if a == ky && b == kz && u < row {
                    raw@[i * row + u]
                } else {
                    filled(raw@, idx@.take(i as int), row as int, a, b, u)
                }));
            }
        }
        i = i + 1;
    }
    proof {
        assert(idx@.take(n as int) == idx@);
    }
    Ok(g)
}

} // verus!
