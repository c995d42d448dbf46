//! Geometric classification of one alignment: internal match, containment or
//! dovetail.

use vstd::prelude::*;

use crate::record::Record;

verus! {

/// The internal-match threshold as an exact ratio `numerator / denominator`.
///
/// An alignment is an internal match when its overhang exceeds its mapped
/// length times this ratio.
#[derive(Clone, Copy, Debug, PartialEq, Eq)]
pub struct Threshold {
    pub numerator: u64,
    pub denominator: u64,
}

impl Threshold {
    /// The threshold `numerator / denominator`.
    pub fn new(numerator: u64, denominator: u64) -> (t: Threshold)
        ensures
            t.numerator == numerator,
            t.denominator == denominator,
    {
        Threshold { numerator, denominator }
    }
}

pub open spec fn min_int(x: int, y: int) -> int {
    if x <= y { x } else { y }
}

pub open spec fn max_int(x: int, y: int) -> int {
    if x >= y { x } else { y }
}

/// Sum of the unaligned flanks that an end-to-end overlap would not leave.
pub open spec fn overhang(r: Record) -> int {
    if r.forward() {
        min_int(r.begin_a as int, r.begin_b as int) + min_int(r.tail_a(), r.tail_b())
    } else {
        min_int(r.begin_a as int, r.tail_b()) + min_int(r.begin_b as int, r.tail_a())
    }
}

/// The longer of the two aligned intervals.
pub open spec fn maplen(r: Record) -> int {
    max_int(r.end_a - r.begin_a, r.end_b - r.begin_b)
}

/// `overhang > maplen * threshold`, without rounding.
pub open spec fn internal_match_spec(r: Record, t: Threshold) -> bool {
    overhang(r) * t.denominator > maplen(r) * t.numerator
}

/// Read B contains read A.
pub open spec fn b_contains_a(r: Record) -> bool {
    if r.forward() {
        r.begin_a <= r.begin_b && r.tail_a() < r.tail_b()
    } else {
        r.begin_a <= r.tail_b() && r.tail_a() < r.begin_b
    }
}

/// Read A contains read B.
pub open spec fn a_contains_b(r: Record) -> bool {
    if r.forward() {
        r.begin_a >= r.begin_b && r.tail_a() > r.tail_b()
    } else {
        r.begin_a >= r.tail_b() && r.tail_a() > r.begin_b
    }
}

pub open spec fn containment_spec(r: Record, t: Threshold) -> bool {
    !internal_match_spec(r, t) && (b_contains_a(r) || a_contains_b(r))
}

pub open spec fn dovetail_spec(r: Record, t: Threshold) -> bool {
    !internal_match_spec(r, t) && !containment_spec(r, t)
}

fn min_u64(x: u64, y: u64) -> (r: u64)
    ensures
        r == min_int(x as int, y as int),
{
    if x <= y {
        x
    } else {
        y
    }
}

fn max_u64(x: u64, y: u64) -> (r: u64)
    ensures
        r == max_int(x as int, y as int),
{
    if x >= y {
        x
    } else {
        y
    }
}

/// The overhang of a valid record.
pub fn overhang_of(r: &Record) -> (o: u64)
    requires
        r.wf(),
    ensures
        o == overhang(*r),
{
    let tail_a = r.len_to_end_a();
    let tail_b = r.len_to_end_b();
    if r.strand == '+' {
        min_u64(r.begin_a, r.begin_b) + min_u64(tail_a, tail_b)
    } else {
        min_u64(r.begin_a, tail_b) + min_u64(r.begin_b, tail_a)
    }
}

/// The mapped length of a valid record.
pub fn maplen_of(r: &Record) -> (m: u64)
    requires
        r.wf(),
    ensures
        m == maplen(*r),
{
    max_u64(r.end_a - r.begin_a, r.end_b - r.begin_b)
}

/// Whether the alignment is an internal match under threshold `t`.
pub fn is_internal_match(r: &Record, t: Threshold) -> (b: bool)
    requires
        r.wf(),
    ensures
        b == internal_match_spec(*r, t),
{
    let o = overhang_of(r) as u128;
    let m = maplen_of(r) as u128;
    let d = t.denominator as u128;
    let n = t.numerator as u128;
    assert(o * d <= u64::MAX * u64::MAX) by (nonlinear_arith)
        requires
            o <= u64::MAX,
            d <= u64::MAX,
    ;
    assert(m * n <= u64::MAX * u64::MAX) by (nonlinear_arith)
        requires
            m <= u64::MAX,
            n <= u64::MAX,
    ;
    o * d > m * n
}

/// Whether B contains A (first two geometric cases).
pub fn is_b_containing_a(r: &Record) -> (b: bool)
    requires
        r.wf(),
    ensures
        b == b_contains_a(*r),
{
    let tail_a = r.len_to_end_a();
    let tail_b = r.len_to_end_b();
    if r.strand == '+' {
        r.begin_a <= r.begin_b && tail_a < tail_b
    } else {
        r.begin_a <= tail_b && tail_a < r.begin_b
    }
}

/// Whether A contains B (last two geometric cases).
pub fn is_a_containing_b(r: &Record) -> (b: bool)
    requires
        r.wf(),
    ensures
        b == a_contains_b(*r),
{
    let tail_a = r.len_to_end_a();
    let tail_b = r.len_to_end_b();
    if r.strand == '+' {
        r.begin_a >= r.begin_b && tail_a > tail_b
    } else {
        r.begin_a >= tail_b && tail_a > r.begin_b
    }
}

/// Whether the alignment is a containment: not an internal match, and one
/// read's aligned region covers the other read.
pub fn is_containment(r: &Record, t: Threshold) -> (b: bool)
    requires
        r.wf(),
    ensures
        b == containment_spec(*r, t),
{
    if is_internal_match(r, t) {
        false
    } else {
        is_b_containing_a(r) || is_a_containing_b(r)
    }
}

/// Whether the alignment is a dovetail: neither an internal match nor a
/// containment.
pub fn is_dovetail(r: &Record, t: Threshold) -> (b: bool)
    requires
        r.wf(),
    ensures
        b == dovetail_spec(*r, t),
{
    !is_internal_match(r, t) && !is_containment(r, t)
}

/// Every valid record is exactly one of internal match, containment and
/// dovetail.
pub proof fn lemma_exactly_one_class(r: Record, t: Threshold)
    requires
        r.wf(),
    ensures
        internal_match_spec(r, t) || containment_spec(r, t) || dovetail_spec(r, t),
        !(internal_match_spec(r, t) && containment_spec(r, t)),
        !(internal_match_spec(r, t) && dovetail_spec(r, t)),
        !(containment_spec(r, t) && dovetail_spec(r, t)),
{
}

/// No record is both a containment and a dovetail.
pub proof fn lemma_containment_not_dovetail(r: Record, t: Threshold)
    ensures
        !(containment_spec(r, t) && dovetail_spec(r, t)),
{
}

/// A containment record names exactly one containing read: B contains A or
/// A contains B, never both.
pub proof fn lemma_containment_direction(r: Record, t: Threshold)
    requires
        containment_spec(r, t),
    ensures
        b_contains_a(r) != a_contains_b(r),
{
}

/// Exchanging sides A and B keeps the class of a record, and turns "B
/// contains A" into "A contains B" and back. On the reverse strand this holds
/// when A's start flank differs from B's end flank and B's start flank
/// differs from A's end flank: on those boundaries the strict and the
/// non-strict comparisons of the containment cases disagree.
pub proof fn lemma_swap_symmetry(r: Record, t: Threshold)
    requires
        r.wf(),
        r.forward() || (r.begin_a != r.tail_b() && r.begin_b != r.tail_a()),
    ensures
        r.swapped().wf(),
        overhang(r.swapped()) == overhang(r),
        maplen(r.swapped()) == maplen(r),
        internal_match_spec(r.swapped(), t) == internal_match_spec(r, t),
        b_contains_a(r.swapped()) == a_contains_b(r),
        a_contains_b(r.swapped()) == b_contains_a(r),
        containment_spec(r.swapped(), t) == containment_spec(r, t),
        dovetail_spec(r.swapped(), t) == dovetail_spec(r, t),
{
}

} // verus!
