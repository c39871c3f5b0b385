//! The thermodynamic rules: Carnot efficiency between two temperatures, the
//! heat exchanged by a harvest, active heating of a cell, the waste heat a
//! walk leaves behind, and the cost of budding a guest.
use vstd::arithmetic::power2::{lemma2_to64, lemma_pow2_strictly_increases, lemma_pow2_unfold, pow2};
use vstd::prelude::*;

use crate::grid::{byte_of, cell_of, NodeData};

verus! {

/// A temperature moved into `[0, 255]` by subtracting `i8::MIN`.
pub open spec fn level(t: i8) -> int {
    t - (-128)
}

pub open spec fn hotter_level(one: i8, other: i8) -> int {
    if level(one) > level(other) {
        level(one)
    } else {
        level(other)
    }
}

pub open spec fn colder_level(one: i8, other: i8) -> int {
    if level(one) > level(other) {
        level(other)
    } else {
        level(one)
    }
}

/// The energy a harvest moves: `floor(η · |T - C| / 2)` with the Carnot
/// efficiency `η = 1 - c/h = (h - c)/h`, and `|T - C| = h - c`. When both
/// temperatures are `i8::MIN` they are equal and nothing moves.
pub open spec fn harvest_delta_of(t: i8, c: i8) -> int {
    let h = hotter_level(t, c);
    let d = h - colder_level(t, c);
    if h == 0 {
        0
    } else {
        (d * d) / (2 * h)
    }
}

/// Saturation into the `i8` range.
pub open spec fn saturate8(v: int) -> i8 {
    (if v > 127 {
        127
    } else if v < -128 {
        -128
    } else {
        v
    }) as i8
}

/// The guest's and the cell's temperatures after a harvest, and the energy gained.
pub open spec fn exchange_of(t: i8, c: i8) -> (i8, i8, int) {
    let delta = harvest_delta_of(t, c);
    if t > c {
        (saturate8(t - delta), saturate8(c + delta), delta)
    } else if t < c {
        (saturate8(t + delta), saturate8(c - delta), delta)
    } else {
        (t, c, delta)
    }
}

pub open spec fn abs(v: int) -> int {
    if v < 0 {
        -v
    } else {
        v
    }
}

/// The Carnot efficiency of two temperatures as the fraction
/// `(h - c) / h` of their levels; `(0, 0)` when both are `i8::MIN`.
pub fn carnot_ratio(one: i8, other: i8) -> (r: (u16, u16))
    ensures
        r.0 == hotter_level(one, other) - colder_level(one, other),
        r.1 == hotter_level(one, other),
{
    let a: u16 = (one as i16 + 128) as u16;
    let b: u16 = (other as i16 + 128) as u16;
    if a > b {
        (a - b, a)
    } else {
        (b - a, b)
    }
}

proof fn lemma_delta_at_most_half(t: i8, c: i8)
    ensures
        0 <= 2 * harvest_delta_of(t, c) <= hotter_level(t, c) - colder_level(t, c),
{
    let h = hotter_level(t, c);
    let d = h - colder_level(t, c);
    if h != 0 {
        let q = (d * d) / (2 * h);
        assert(0 <= 2 * q <= d) by (nonlinear_arith)
            requires
                0 <= d <= h,
                h > 0,
                q == (d * d) / (2 * h),
        {
            assert(q * (2 * h) <= d * d);
            assert(d * d <= d * h);
            assert(0 <= q);
        }
    }
}

/// The energy a harvest moves between temperature `t` and cell `c`.
pub fn harvest_delta(t: i8, c: i8) -> (r: u8)
    ensures
        r == harvest_delta_of(t, c),
{
    proof {
        lemma_delta_at_most_half(t, c);
    }
    let (d, h) = carnot_ratio(t, c);
    if h == 0 {
        0
    } else {
        assert(d as u32 * d as u32 <= 65025) by (nonlinear_arith)
            requires
                d <= 255,
        ;
        let dd: u32 = d as u32 * d as u32;
        (dd / (2 * h as u32)) as u8
    }
}

fn saturating_i8(v: i16) -> (r: i8)
    ensures
        r == saturate8(v as int),
{
    if v > 127 {
        127
    } else if v < -128 {
        -128
    } else {
        v as i8
    }
}

/// Heat flows from the hotter side to the colder one: returns the guest's new
/// temperature, the cell's new temperature and the energy the guest gains.
pub fn harvest_exchange(t: i8, c: i8) -> (r: (i8, i8, u8))
    ensures
        (r.0, r.1, r.2 as int) == exchange_of(t, c),
{
    let delta = harvest_delta(t, c);
    if t > c {
        (saturating_i8(t as i16 - delta as i16), saturating_i8(c as i16 + delta as i16), delta)
    } else if t < c {
        (saturating_i8(t as i16 + delta as i16), saturating_i8(c as i16 - delta as i16), delta)
    } else {
        (t, c, delta)
    }
}

/// A harvest never widens the gap between guest and cell, and the energy it
/// yields never exceeds that gap.
pub proof fn lemma_harvest_conserves(t: i8, c: i8)
    ensures
        abs(exchange_of(t, c).0 - exchange_of(t, c).1) <= abs(t - c),
        0 <= exchange_of(t, c).2 <= abs(t - c),
{
    lemma_delta_at_most_half(t, c);
}

/// A cell heated by `energy` in its unsigned byte reading; `None` when the
/// byte would pass `u8::MAX`.
pub open spec fn heated_of(cell: i8, energy: u8) -> Option<i8> {
    if byte_of(cell) + energy > 255 {
        None
    } else {
        Some(cell_of((byte_of(cell) + energy) as u8))
    }
}

pub fn heated_cell(cell: i8, energy: u8) -> (r: Option<i8>)
    ensures
        r == heated_of(cell, energy),
{
    let byte: u8 = if cell < 0 {
        (cell as i16 + 256) as u8
    } else {
        cell as u8
    };
    match byte.checked_add(energy) {
        Some(b) => Some(if b >= 128 {
            (b as i16 - 256) as i8
        } else {
            b as i8
        }),
        None => None,
    }
}

/// The indices, in increasing order, of the first `n` cells that are below `i8::MAX`.
pub open spec fn cooler_upto(cells: Seq<i8>, n: int) -> Seq<usize>
    decreases n,
{
    if n <= 0 {
        Seq::empty()
    } else if cells[n - 1] < 127 {
        cooler_upto(cells, n - 1).push((n - 1) as usize)
    } else {
        cooler_upto(cells, n - 1)
    }
}

/// The cells that can still take waste heat.
pub open spec fn cooler_cells(cells: Seq<i8>) -> Seq<usize> {
    cooler_upto(cells, cells.len() as int)
}

/// The cells after waste heat goes to candidate number `pick` (taken modulo
/// the number of candidates).
pub open spec fn exhausted(cells: Seq<i8>, pick: int) -> Seq<i8> {
    let cands = cooler_cells(cells);
    let i = cands[pick % cands.len() as int] as int;
    cells.update(i, (cells[i] + 1) as i8)
}

proof fn lemma_cooler_upto(cells: Seq<i8>, n: int)
    requires
        0 <= n <= cells.len() <= usize::MAX,
    ensures
        cooler_upto(cells, n).len() <= n,
        forall|j: int|
            0 <= j < cooler_upto(cells, n).len() ==> (#[trigger] cooler_upto(cells, n)[j]) < n
                && cells[cooler_upto(cells, n)[j] as int] < 127,
        cooler_upto(cells, n).len() == 0 <==> forall|i: int| 0 <= i < n ==> cells[i] == 127,
    decreases n,
{
    if n > 0 {
        lemma_cooler_upto(cells, n - 1);
        let prev = cooler_upto(cells, n - 1);
        if cells[n - 1] < 127 {
            let cur = cooler_upto(cells, n);
            assert(cur == prev.push((n - 1) as usize));
            assert forall|j: int| 0 <= j < cur.len() implies (#[trigger] cur[j]) < n && cells[cur[j] as int]
                < 127 by {
                if j < prev.len() {
                    assert(cur[j] == prev[j]);
                }
            }
            assert(cur.len() > 0);
        } else {
            assert forall|i: int| 0 <= i < n && cooler_upto(cells, n - 1).len() == 0 implies cells[i]
                == 127 by {
                if i < n - 1 {
                } else {
                }
            }
        }
    }
}

/// Every candidate names a cell below `i8::MAX`, and there is none exactly
/// when every cell is at `i8::MAX`.
pub proof fn lemma_cooler_cells(cells: Seq<i8>)
    requires
        cells.len() <= usize::MAX,
    ensures
        forall|j: int|
            0 <= j < cooler_cells(cells).len() ==> (#[trigger] cooler_cells(cells)[j]) < cells.len()
                && cells[cooler_cells(cells)[j] as int] < 127,
        cooler_cells(cells).len() == 0 <==> forall|i: int| 0 <= i < cells.len() ==> cells[i] == 127,
{
    lemma_cooler_upto(cells, cells.len() as int);
}

/// The indices of the cells that are below `i8::MAX`, in increasing order.
pub fn cooler_indices(data: &NodeData) -> (r: Vec<usize>)
    ensures
        r@ == cooler_cells(data@),
        data@.len() <= usize::MAX,
{
    let mut out: Vec<usize> = Vec::new();
    let n = data.len();
    let mut i: usize = 0;
    while i < n
        invariant
            n == data@.len(),
            i <= n,
            out@ == cooler_upto(data@, i as int),
        decreases n - i,
    {
        match data.get(i) {
            Some(v) => {
                if v < 127 {
                    out.push(i);
                }
            },
            None => {},
        }
        i += 1;
    }
    out
}

/// Puts one unit of waste heat into candidate number `pick` (modulo their
/// number); `false`, with the cells unchanged, when every cell is at `i8::MAX`.
pub fn exhaust(data: &mut NodeData, pick: usize) -> (r: bool)
    ensures
        r == (cooler_cells(old(data)@).len() > 0),
        r ==> final(data)@ == exhausted(old(data)@, pick as int),
        final(data)@.len() == old(data)@.len(),
        !r ==> final(data)@ == old(data)@,
{
    let cands = cooler_indices(data);
    if cands.len() == 0 {
        return false;
    }
    proof {
        lemma_cooler_cells(data@);
    }
    let i = cands[pick % cands.len()];
    match data.get(i) {
        Some(v) => {
            data.set(i, v + 1);
        },
        None => {},
    }
    true
}

/// The energy budding a guest costs a player who owns `k` guests: `2^k`.
pub fn arrange_cost(k: u32) -> (r: i64)
    requires
        k < 32,
    ensures
        r == pow2(k as nat),
{
    let mut c: i64 = 1;
    let mut i: u32 = 0;
    proof {
        lemma2_to64();
    }
    while i < k
        invariant
            i <= k < 32,
            c == pow2(i as nat),
        decreases k - i,
    {
        proof {
            lemma_pow2_unfold((i + 1) as nat);
            lemma2_to64();
            if i + 1 < 32 {
                lemma_pow2_strictly_increases((i + 1) as nat, 32);
            }
        }
        c = c * 2;
        i += 1;
    }
    c
}

} // verus!
