//! Chunking strategy of an upload: part size, part count and byte ranges.

use vstd::prelude::*;
use vstd::arithmetic::div_mod::lemma_fundamental_div_mod;
use vstd::arithmetic::div_mod::lemma_fundamental_div_mod_converse;
use vstd::arithmetic::mul::lemma_mul_is_commutative;

verus! {

/// One mebibyte, the granularity of part sizes.
pub const MIB: u64 = 1048576;

/// Smallest part size the planner ever chooses: 5 MiB.
pub const MIN_PART_SIZE: u64 = 5242880;

/// Largest number of parts the remote backend accepts for one object.
pub const MAX_PARTS: u64 = 10000;

/// `a / b` rounded up.
pub open spec fn ceil_div(a: int, b: int) -> int
    recommends
        a >= 0,
        b > 0,
{
    if a % b == 0 {
        a / b
    } else {
        a / b + 1
    }
}

/// A part size that the remote backend accepts for a file of `file_size`
/// bytes: a whole number of MiB, at least 5 MiB, giving at most 10000 parts.
pub open spec fn admissible_part_size(file_size: int, part_size: int) -> bool {
    &&& part_size >= MIN_PART_SIZE
    &&& part_size % (MIB as int) == 0
    &&& ceil_div(file_size, part_size) <= MAX_PARTS
}

/// The part size chosen for a file of `file_size` bytes, in closed form.
pub open spec fn planned_part_size(file_size: int) -> int {
    if file_size > MIN_PART_SIZE * MAX_PARTS {
        ceil_div(ceil_div(file_size, MAX_PARTS as int), MIB as int) * MIB
    } else {
        MIN_PART_SIZE as int
    }
}

/// The number of parts of a file of `file_size` bytes cut at `part_size`.
pub open spec fn planned_total_parts(file_size: int, part_size: int) -> int {
    ceil_div(file_size, part_size)
}

/// First byte offset of part `n` (1-based).
pub open spec fn part_start(part_size: int, n: int) -> int {
    (n - 1) * part_size
}

/// Offset one past the last byte of part `n` (1-based).
pub open spec fn part_end(file_size: int, part_size: int, n: int) -> int {
    if n * part_size < file_size {
        n * part_size
    } else {
        file_size
    }
}

/// Number of bytes in part `n` (1-based).
pub open spec fn part_len(file_size: int, part_size: int, n: int) -> int {
    part_end(file_size, part_size, n) - part_start(part_size, n)
}

/// Total length of parts `1..=n`.
pub open spec fn parts_len_sum(file_size: int, part_size: int, n: int) -> int
    decreases n,
{
    if n <= 0 {
        0
    } else {
        parts_len_sum(file_size, part_size, n - 1) + part_len(file_size, part_size, n)
    }
}

/// `ceil_div(a, b) <= k` says exactly that `k` parts of `b` bytes hold `a` bytes.
pub proof fn lemma_ceil_div_bound(a: int, b: int, k: int)
    requires
        a >= 0,
        b > 0,
    ensures
        ceil_div(a, b) <= k <==> a <= k * b,
        ceil_div(a, b) >= 0,
        a > 0 ==> ceil_div(a, b) >= 1,
{
    lemma_fundamental_div_mod(a, b);
    let q = a / b;
    let r = a % b;
    assert(a == b * q + r);
    assert(0 <= r < b);
    assert(q >= 0) by (nonlinear_arith)
        requires
            a == b * q + r,
            0 <= r < b,
            a >= 0,
            b > 0,
    ;
    if ceil_div(a, b) <= k {
        if r == 0 {
            assert(b * q <= k * b) by (nonlinear_arith)
                requires
                    q <= k,
                    b > 0,
            ;
        } else {
            assert(b * (q + 1) <= k * b) by (nonlinear_arith)
                requires
                    q + 1 <= k,
                    b > 0,
            ;
            assert(b * (q + 1) == b * q + b) by (nonlinear_arith);
        }
    }
    if a <= k * b {
        if r == 0 {
            assert(q <= k) by (nonlinear_arith)
                requires
                    b * q <= k * b,
                    b > 0,
            ;
        } else {
            assert(q < k) by (nonlinear_arith)
                requires
                    b * q < k * b,
                    b > 0,
            ;
        }
    }
    if a > 0 && r == 0 {
        assert(q >= 1) by (nonlinear_arith)
            requires
                a == b * q,
                a > 0,
                b > 0,
        ;
    }
}

/// The planned part size is admissible, and no admissible size is smaller.
pub proof fn lemma_planned_part_size_least(file_size: int, other: int)
    requires
        file_size >= 0,
    ensures
        admissible_part_size(file_size, planned_part_size(file_size)),
        admissible_part_size(file_size, other) ==> planned_part_size(file_size) <= other,
{
    let mib = MIB as int;
    let max = MAX_PARTS as int;
    let ps = planned_part_size(file_size);
    if file_size > MIN_PART_SIZE * MAX_PARTS {
        let needed = ceil_div(file_size, max);
        let units = ceil_div(needed, mib);
        lemma_ceil_div_bound(file_size, max, needed);
        lemma_ceil_div_bound(file_size, max, MIN_PART_SIZE as int);
        assert(needed > MIN_PART_SIZE);
        lemma_ceil_div_bound(needed, mib, units);
        assert(needed <= units * mib);
        assert(ps == units * mib);
        assert(ps % mib == 0) by {
            lemma_fundamental_div_mod_converse(ps, mib, units, 0);
        }
        assert(max * ps >= max * needed) by (nonlinear_arith)
            requires
                ps >= needed,
                max > 0,
        ;
        assert(file_size <= max * ps) by {
            lemma_mul_is_commutative(needed, max);
        }
        lemma_ceil_div_bound(file_size, ps, max);
        assert(max * ps == ps * max) by (nonlinear_arith);
        if admissible_part_size(file_size, other) {
            lemma_ceil_div_bound(file_size, other, max);
            assert(file_size <= max * other);
            lemma_ceil_div_bound(file_size, max, other);
            assert(other * max == max * other) by (nonlinear_arith);
            assert(needed <= other);
            lemma_fundamental_div_mod(other, mib);
            let j = other / mib;
            assert(other == mib * j);
            assert(mib * j == j * mib) by (nonlinear_arith);
            lemma_ceil_div_bound(needed, mib, j);
            assert(units <= j);
            assert(units * mib <= j * mib) by (nonlinear_arith)
                requires
                    units <= j,
                    mib > 0,
            ;
        }
    } else {
        lemma_ceil_div_bound(file_size, MIN_PART_SIZE as int, max);
    }
}

/// Consecutive parts tile the file: part `n` starts where part `n - 1` ends,
/// and the parts `1..=n` together hold the first `part_end(n)` bytes.
pub proof fn lemma_parts_len_sum(file_size: int, part_size: int, n: int)
    requires
        file_size >= 0,
        part_size > 0,
        0 <= n <= ceil_div(file_size, part_size),
    ensures
        parts_len_sum(file_size, part_size, n) == if n == 0 {
            0
        } else {
            part_end(file_size, part_size, n)
        },
        n >= 1 ==> 0 <= part_start(part_size, n) < part_end(file_size, part_size, n) <= file_size,
        n >= 1 ==> part_len(file_size, part_size, n) <= part_size,
        n >= 2 ==> part_start(part_size, n) == part_end(file_size, part_size, n - 1),
        n >= 1 && n == ceil_div(file_size, part_size) ==> part_end(file_size, part_size, n)
            == file_size,
    decreases n,
{
    if n >= 1 {
        lemma_parts_len_sum(file_size, part_size, n - 1);
        lemma_ceil_div_bound(file_size, part_size, n - 1);
        lemma_ceil_div_bound(file_size, part_size, n);
        lemma_ceil_div_bound(file_size, part_size, ceil_div(file_size, part_size));
        assert((n - 1) * part_size < file_size);
        assert(n * part_size == (n - 1) * part_size + part_size) by (nonlinear_arith);
        assert((n - 1) * part_size >= 0) by (nonlinear_arith)
            requires
                n >= 1,
                part_size > 0,
        ;
        if n >= 2 {
            assert((n - 1) * part_size < file_size);
            assert(part_end(file_size, part_size, n - 1) == (n - 1) * part_size);
        }
    }
}

/// The whole file is covered: the parts `1..=total_parts` add up to `file_size`.
pub proof fn lemma_parts_cover_file(file_size: int, part_size: int)
    requires
        file_size >= 0,
        part_size > 0,
    ensures
        parts_len_sum(file_size, part_size, ceil_div(file_size, part_size)) == file_size,
{
    let total = ceil_div(file_size, part_size);
    lemma_ceil_div_bound(file_size, part_size, total);
    lemma_parts_len_sum(file_size, part_size, total);
    if total == 0 {
        lemma_ceil_div_bound(file_size, part_size, 0);
    }
}

/// `a / b` rounded up, without overflow.
pub fn div_round_up(a: u64, b: u64) -> (q: u64)
    requires
        b > 0,
    ensures
        q == ceil_div(a as int, b as int),
{
    if a % b == 0 {
        a / b
    } else {
        proof {
            lemma_fundamental_div_mod(a as int, b as int);
            assert((a / b) as int + 1 <= a as int) by (nonlinear_arith)
                requires
                    a as int == (b as int) * ((a / b) as int) + (a % b) as int,
                    b >= 1,
                    a % b > 0,
                    a / b >= 0,
            ;
        }
        a / b + 1
    }
}

/// Chooses the part size for a file of `file_size` bytes: 5 MiB, or, where
/// that would need more than 10000 parts, the smallest whole number of MiB
/// that needs at most 10000.
pub fn part_size_for(file_size: u64) -> (part_size: u64)
    ensures
        part_size == planned_part_size(file_size as int),
        admissible_part_size(file_size as int, part_size as int),
        forall|other: int| #[trigger]
            admissible_part_size(file_size as int, other) ==> part_size <= other,
{
    proof {
        assert forall|other: int| #[trigger]
            admissible_part_size(file_size as int, other) implies planned_part_size(
            file_size as int,
        ) <= other by {
            lemma_planned_part_size_least(file_size as int, other);
        }
        lemma_planned_part_size_least(file_size as int, 0);
    }
    if file_size > MIN_PART_SIZE * MAX_PARTS {
        let needed: u64 = div_round_up(file_size, MAX_PARTS);
        proof {
            lemma_ceil_div_bound(file_size as int, MAX_PARTS as int, 1844674407370956);
        }
        let units: u64 = div_round_up(needed, MIB);
        proof {
            lemma_ceil_div_bound(needed as int, MIB as int, 1759218605);
        }
        units * MIB
    } else {
        MIN_PART_SIZE
    }
}

/// A half-open range of byte offsets, `start..end`.
#[derive(Clone, Copy, Debug, PartialEq, Eq, Structural)]
pub struct ByteRange {
    pub start: u64,
    pub end: u64,
}

/// What a plan holds, as mathematical integers.
pub struct PlanView {
    pub file_size: int,
    pub part_size: int,
    pub total_parts: int,
}

impl PlanView {
    /// The plan that the planner makes for a file of `file_size` bytes.
    pub open spec fn of_file(file_size: int) -> PlanView {
        PlanView {
            file_size,
            part_size: planned_part_size(file_size),
            total_parts: ceil_div(file_size, planned_part_size(file_size)),
        }
    }

    /// The plan is the planner's own for its file size.
    pub open spec fn wf(self) -> bool {
        &&& 0 <= self.file_size <= u64::MAX
        &&& self == Self::of_file(self.file_size)
    }

    /// `n` is the number of a part of this plan.
    pub open spec fn has_part(self, n: int) -> bool {
        1 <= n <= self.total_parts
    }

    /// First byte offset of part `n`.
    pub open spec fn start_of(self, n: int) -> int {
        part_start(self.part_size, n)
    }

    /// Offset one past the last byte of part `n`.
    pub open spec fn end_of(self, n: int) -> int {
        part_end(self.file_size, self.part_size, n)
    }

    /// Number of bytes of part `n`.
    pub open spec fn len_of(self, n: int) -> int {
        part_len(self.file_size, self.part_size, n)
    }

    /// One request suffices: the file fits in one part and nothing is resumed.
    pub open spec fn simple(self, resuming: bool) -> bool {
        self.file_size <= self.part_size && !resuming
    }
}

/// The chunking of one file, derived once from its size.
#[derive(Clone, Copy, Debug)]
pub struct UploadPlan {
    file_size: u64,
    part_size: u64,
    total_parts: u32,
}

impl View for UploadPlan {
    type V = PlanView;

    closed spec fn view(&self) -> PlanView {
        PlanView {
            file_size: self.file_size as int,
            part_size: self.part_size as int,
            total_parts: self.total_parts as int,
        }
    }
}

/// Every well-formed plan respects the backend's limits and tiles its file.
pub proof fn lemma_plan_bounds(plan: PlanView)
    requires
        plan.wf(),
    ensures
        admissible_part_size(plan.file_size, plan.part_size),
        0 <= plan.total_parts <= MAX_PARTS,
        plan.part_size <= u64::MAX,
        plan.file_size > 0 ==> plan.total_parts >= 1,
        parts_len_sum(plan.file_size, plan.part_size, plan.total_parts) == plan.file_size,
{
    lemma_planned_part_size_least(plan.file_size, 0);
    lemma_ceil_div_bound(plan.file_size, plan.part_size, MAX_PARTS as int);
    lemma_parts_cover_file(plan.file_size, plan.part_size);
    if plan.file_size > MIN_PART_SIZE * MAX_PARTS {
        let needed = ceil_div(plan.file_size, MAX_PARTS as int);
        lemma_ceil_div_bound(plan.file_size, MAX_PARTS as int, 1844674407370956);
        lemma_ceil_div_bound(needed, MIB as int, 1759218605);
        assert(ceil_div(needed, MIB as int) * MIB <= 1759218605 * MIB) by (nonlinear_arith)
            requires
                ceil_div(needed, MIB as int) <= 1759218605,
        ;
    }
}

impl UploadPlan {
    #[verifier::type_invariant]
    spec fn inv(self) -> bool {
        self@.wf()
    }

    /// Plans the upload of a file of `file_size` bytes.
    pub fn new(file_size: u64) -> (plan: UploadPlan)
        ensures
            plan@ == PlanView::of_file(file_size as int),
            plan@.wf(),
    {
        let part_size: u64 = part_size_for(file_size);
        let total: u64 = div_round_up(file_size, part_size);
        proof {
            lemma_plan_bounds(PlanView::of_file(file_size as int));
        }
        UploadPlan { file_size, part_size, total_parts: total as u32 }
    }

    /// Size of the file in bytes.
    pub fn file_size(&self) -> (n: u64)
        ensures
            n == self@.file_size,
            self@.wf(),
    {
        proof {
            use_type_invariant(self);
        }
        self.file_size
    }

    /// Size of every part but possibly the last.
    pub fn part_size(&self) -> (n: u64)
        ensures
            n == self@.part_size,
            self@.wf(),
    {
        proof {
            use_type_invariant(self);
        }
        self.part_size
    }

    /// Number of parts.
    pub fn total_parts(&self) -> (n: u32)
        ensures
            n == self@.total_parts,
            self@.wf(),
    {
        proof {
            use_type_invariant(self);
        }
        self.total_parts
    }

    /// Whether the transfer is a single-request upload: the file fits in one
    /// part and no earlier remote session is being resumed.
    pub fn is_simple(&self, resuming: bool) -> (simple: bool)
        ensures
            simple == self@.simple(resuming),
    {
        self.file_size <= self.part_size && !resuming
    }

    /// The byte range of part `n`, or `None` where the plan has no such part.
    pub fn part_range(&self, n: u32) -> (range: Option<ByteRange>)
        ensures
            self@.wf(),
            range.is_some() == self@.has_part(n as int),
            range matches Some(r) ==> r.start == self@.start_of(n as int) && r.end
                == self@.end_of(n as int) && r.start < r.end <= self@.file_size,
    {
        proof {
            use_type_invariant(self);
        }
        if n < 1 || n > self.total_parts {
            return None;
        }
        proof {
            lemma_plan_bounds(self@);
            lemma_parts_len_sum(self@.file_size, self@.part_size, n as int);
            assert(n as int * self@.part_size == (n as int - 1) * self@.part_size
                + self@.part_size) by (nonlinear_arith);
        }
        let index: u64 = (n - 1) as u64;
        let start: u64 = index * self.part_size;
        let end: u64 = if self.file_size - start > self.part_size {
            start + self.part_size
        } else {
            self.file_size
        };
        Some(ByteRange { start, end })
    }

    /// The numbered byte ranges of all parts, in ascending order.
    pub fn ranges(&self) -> (ranges: Vec<(u32, ByteRange)>)
        ensures
            self@.wf(),
            ranges@.len() == self@.total_parts,
            forall|i: int|
                0 <= i < ranges@.len() ==> {
                    &&& (#[trigger] ranges@[i]).0 == i + 1
                    &&& ranges@[i].1.start == self@.start_of(i + 1)
                    &&& ranges@[i].1.end == self@.end_of(i + 1)
                },
    {
        proof {
            use_type_invariant(self);
            lemma_plan_bounds(self@);
        }
        let mut ranges: Vec<(u32, ByteRange)> = Vec::new();
        let mut n: u32 = 1;
        while n <= self.total_parts
            invariant
                self@.wf(),
                self@.total_parts <= MAX_PARTS,
                1 <= n <= self@.total_parts + 1,
                ranges@.len() == n - 1,
                forall|i: int|
                    0 <= i < ranges@.len() ==> {
                        &&& (#[trigger] ranges@[i]).0 == i + 1
                        &&& ranges@[i].1.start == self@.start_of(i + 1)
                        &&& ranges@[i].1.end == self@.end_of(i + 1)
                    },
            decreases self@.total_parts + 1 - n,
        {
            match self.part_range(n) {
                Some(r) => {
                    ranges.push((n, r));
                },
                None => {},
            }
            n = n + 1;
        }
        ranges
    }
}

} // verus!
