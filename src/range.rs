//! Inclusive byte ranges and the partition of a byte span into contiguous ranges.
use vstd::prelude::*;

verus! {

/// An inclusive byte range `[start, end]` of a resource.
#[derive(Clone, Copy, Debug, PartialEq, Eq, Structural)]
pub struct ByteRange {
    pub start: u64,
    pub end: u64,
}

impl ByteRange {
    /// A range is well formed when it holds at least one byte.
    pub open spec fn wf(&self) -> bool {
        self.start <= self.end
    }

    /// Number of bytes in the range.
    pub open spec fn len(&self) -> int {
        self.end - self.start + 1
    }

    /// Whether byte offset `x` lies inside the range.
    pub open spec fn contains(&self, x: int) -> bool {
        self.start <= x <= self.end
    }
}

/// The size every range of a partition gets, but the last.
pub open spec fn part_size(base: u64, total_size: u64, n: nat) -> int {
    (total_size - base) / (n as int)
}

/// The `i`-th range when `[base, total_size - 1]` is split into `n` ranges: each
/// holds `part_size` bytes, and the last one extends to `total_size - 1`.
pub open spec fn nth_range(base: u64, total_size: u64, n: nat, i: int) -> ByteRange {
    let size = part_size(base, total_size, n);
    ByteRange {
        start: (base + i * size) as u64,
        end: if i == n - 1 {
            (total_size - 1) as u64
        } else {
            (base + (i + 1) * size - 1) as u64
        },
    }
}

/// The whole partition of `[base, total_size - 1]` into `n` ranges.
pub open spec fn partition_seq(base: u64, total_size: u64, n: nat) -> Seq<ByteRange> {
    Seq::new(n, |i: int| nth_range(base, total_size, n, i))
}

/// `ranges` tile `[base, total_size - 1]`: each is well formed, the first starts at
/// `base`, the last ends at `total_size - 1`, and each starts right after the one
/// before it ends.
pub open spec fn tiles(ranges: Seq<ByteRange>, base: int, total_size: int) -> bool {
    &&& ranges.len() > 0
    &&& ranges[0].start == base
    &&& ranges[ranges.len() - 1].end == total_size - 1
    &&& forall|i: int| 0 <= i < ranges.len() ==> #[trigger] ranges[i].wf()
    &&& forall|i: int|
        0 <= i < ranges.len() - 1 ==> #[trigger] ranges[i].end + 1 == ranges[i + 1].start
}

/// Some range of `ranges` holds offset `x`.
pub open spec fn covered(ranges: Seq<ByteRange>, x: int) -> bool {
    exists|i: int| 0 <= i < ranges.len() && #[trigger] ranges[i].contains(x)
}

/// A valid request for a partition: a non-empty span with at least one byte per range.
pub open spec fn partition_args_ok(base: u64, total_size: u64, n: usize) -> bool {
    &&& base < total_size
    &&& 1 <= n
    &&& n <= total_size - base
}

proof fn lemma_part_bounds(base: u64, total_size: u64, n: nat, i: int)
    requires
        base < total_size,
        1 <= n <= total_size - base,
        0 <= i <= n,
    ensures
        part_size(base, total_size, n) >= 1,
        0 <= i * part_size(base, total_size, n) <= total_size - base,
        i < n ==> (i + 1) * part_size(base, total_size, n) <= total_size - base,
        i < n ==> i * part_size(base, total_size, n) + part_size(base, total_size, n)
            == (i + 1) * part_size(base, total_size, n),
{
    let rem = total_size - base;
    let size = part_size(base, total_size, n);
    assert(size >= 1) by (nonlinear_arith)
        requires
            size == rem / (n as int),
            1 <= n <= rem,
    ;
    assert(n * size <= rem) by (nonlinear_arith)
        requires
            size == rem / (n as int),
            n >= 1,
            rem >= 0,
    ;
    assert(0 <= i * size <= n * size) by (nonlinear_arith)
        requires
            0 <= i <= n,
            size >= 1,
    ;
    if i < n {
        assert((i + 1) * size <= n * size) by (nonlinear_arith)
            requires
                0 <= i < n,
                size >= 1,
        ;
        assert(i * size + size == (i + 1) * size) by (nonlinear_arith);
    }
}

/// Every partition with valid arguments tiles the span exactly.
pub proof fn lemma_partition_tiles(base: u64, total_size: u64, n: usize)
    requires
        partition_args_ok(base, total_size, n),
    ensures
        tiles(partition_seq(base, total_size, n as nat), base as int, total_size as int),
        partition_seq(base, total_size, n as nat).len() == n,
{
    let n_ = n as nat;
    let s = partition_seq(base, total_size, n_);
    lemma_part_bounds(base, total_size, n_, 0);
    lemma_part_bounds(base, total_size, n_, n_ - 1);
    assert forall|i: int| 0 <= i < s.len() implies #[trigger] s[i].wf() by {
        lemma_part_bounds(base, total_size, n_, i);
    }
    assert forall|i: int| 0 <= i < s.len() - 1 implies #[trigger] s[i].end + 1 == s[i + 1].start by {
        lemma_part_bounds(base, total_size, n_, i);
        lemma_part_bounds(base, total_size, n_, i + 1);
    }
}

proof fn lemma_tiles_ordered(ranges: Seq<ByteRange>, base: int, total_size: int, i: int, j: int)
    requires
        tiles(ranges, base, total_size),
        0 <= i < j < ranges.len(),
    ensures
        ranges[i].end < ranges[j].start,
    decreases j - i,
{
    if j > i + 1 {
        lemma_tiles_ordered(ranges, base, total_size, i, j - 1);
        assert(ranges[j - 1].wf());
        assert(ranges[j - 1].end + 1 == ranges[j].start);
    } else {
        assert(ranges[i].end + 1 == ranges[i + 1].start);
    }
}

proof fn lemma_tiles_within(ranges: Seq<ByteRange>, base: int, total_size: int, i: int)
    requires
        tiles(ranges, base, total_size),
        0 <= i < ranges.len(),
    ensures
        base <= ranges[i].start,
        ranges[i].end <= total_size - 1,
{
    let last = ranges.len() - 1;
    assert(ranges[0].wf());
    assert(ranges[i].wf());
    if i > 0 {
        lemma_tiles_ordered(ranges, base, total_size, 0, i);
    }
    if i < last {
        lemma_tiles_ordered(ranges, base, total_size, i, last);
        assert(ranges[last].wf());
    }
}

proof fn lemma_tiles_find(ranges: Seq<ByteRange>, base: int, total_size: int, x: int, k: int) -> (i: int)
    requires
        tiles(ranges, base, total_size),
        0 <= k < ranges.len(),
        ranges[k].start <= x <= total_size - 1,
    ensures
        0 <= i < ranges.len(),
        ranges[i].contains(x),
    decreases ranges.len() - k,
{
    if x <= ranges[k].end {
        k
    } else {
        assert(k < ranges.len() - 1);
        assert(ranges[k].end + 1 == ranges[k + 1].start);
        lemma_tiles_find(ranges, base, total_size, x, k + 1)
    }
}

/// Ranges that tile `[base, total_size - 1]` come sorted by start, never overlap,
/// and together hold exactly the offsets of the span, each offset in one range only.
pub proof fn lemma_tiles_exact_cover(ranges: Seq<ByteRange>, base: int, total_size: int)
    requires
        tiles(ranges, base, total_size),
    ensures
        forall|i: int, j: int|
            0 <= i < j < ranges.len() ==> #[trigger] ranges[i].end < #[trigger] ranges[j].start,
        forall|x: int| #[trigger] covered(ranges, x) <==> base <= x < total_size,
        forall|i: int, j: int, x: int|
            0 <= i < ranges.len() && 0 <= j < ranges.len() && #[trigger] ranges[i].contains(x)
                && #[trigger] ranges[j].contains(x) ==> i == j,
{
    assert forall|i: int, j: int| 0 <= i < j < ranges.len() implies #[trigger] ranges[i].end
        < #[trigger] ranges[j].start by {
        lemma_tiles_ordered(ranges, base, total_size, i, j);
    }
    assert forall|x: int| #[trigger] covered(ranges, x) <==> base <= x < total_size by {
        if base <= x < total_size {
            let i = lemma_tiles_find(ranges, base, total_size, x, 0);
            assert(ranges[i].contains(x));
        }
        if exists|i: int| 0 <= i < ranges.len() && #[trigger] ranges[i].contains(x) {
            let i = choose|i: int| 0 <= i < ranges.len() && #[trigger] ranges[i].contains(x);
            lemma_tiles_within(ranges, base, total_size, i);
        }
    }
}

/// A partition with valid arguments has exactly `n` ranges, sorted by start,
/// pairwise disjoint and contiguous, whose union is exactly `[base, total_size - 1]`:
/// each offset of the span falls in exactly one range.
pub proof fn lemma_partition_exact_cover(base: u64, total_size: u64, n: usize)
    requires
        partition_args_ok(base, total_size, n),
    ensures
        ({
            let s = partition_seq(base, total_size, n as nat);
            &&& s.len() == n
            &&& forall|i: int| 0 <= i < s.len() ==> #[trigger] s[i].wf()
            &&& forall|i: int| 0 <= i < s.len() - 1 ==> #[trigger] s[i].end + 1 == s[i + 1].start
            &&& forall|i: int, j: int|
                0 <= i < j < s.len() ==> #[trigger] s[i].end < #[trigger] s[j].start
            &&& forall|x: int| #[trigger] covered(s, x) <==> base <= x < total_size
            &&& forall|i: int, j: int, x: int|
                0 <= i < s.len() && 0 <= j < s.len() && #[trigger] s[i].contains(x)
                    && #[trigger] s[j].contains(x) ==> i == j
        }),
{
    lemma_partition_tiles(base, total_size, n);
    lemma_tiles_exact_cover(partition_seq(base, total_size, n as nat), base as int, total_size as int);
}

/// Splits `[base, total_size - 1]` into `n` contiguous ranges: each holds
/// `(total_size - base) / n` bytes, and the last one also takes the remainder.
pub fn partition_ranges(base: u64, total_size: u64, n: usize) -> (ranges: Vec<ByteRange>)
    requires
        partition_args_ok(base, total_size, n),
    ensures
        ranges@ == partition_seq(base, total_size, n as nat),
{
    let rem: u64 = total_size - base;
    let size: u64 = rem / (n as u64);
    let mut ranges: Vec<ByteRange> = Vec::new();
    let mut i: usize = 0;
    while i < n
        invariant
            partition_args_ok(base, total_size, n),
            rem == total_size - base,
            size == part_size(base, total_size, n as nat),
            i <= n,
            ranges@.len() == i,
            forall|j: int| 0 <= j < i ==> ranges@[j] == nth_range(base, total_size, n as nat, j),
        decreases n - i,
    {
        proof {
            lemma_part_bounds(base, total_size, n as nat, i as int);
        }
        let offset: u64 = (i as u64) * size;
        let start: u64 = base + offset;
        let end: u64 = if i == n - 1 {
            total_size - 1
        } else {
            start + size - 1
        };
        ranges.push(ByteRange { start, end });
        i = i + 1;
    }
    assert(ranges@ =~= partition_seq(base, total_size, n as nat));
    ranges
}

} // verus!
