//! A `SyncSplitter` hands out disjoint, contiguous sub-ranges of one
//! fixed-capacity buffer, so that a caller building a tree or another
//! graph can place every node in a single pre-sized array instead of
//! allocating each node on its own.
//!
//! The splitter wraps the buffer together with a cursor.  Each claim
//! (`pop`, `pop_two`, `pop_n`) advances the cursor by the requested
//! length and, when the advanced cursor still fits the capacity,
//! returns the starting offset of the claimed range.  Claims are
//! monotonic: there is no way to release a range.  Once a claim of a
//! representable length fails, the cursor is pinned at the capacity
//! and every later claim — a zero-length one included — fails too.
//! A request longer than the whole buffer can never fit and is
//! rejected without touching the cursor.  The terminal `done` reports
//! how many elements were claimed, so the caller can truncate the
//! buffer to the portion actually used.

use vstd::prelude::*;

verus! {

/// Whether a claim of `len` elements succeeds when the cursor stands at
/// `next` in a buffer of `cap` elements: the buffer must not yet be
/// exhausted, and the claimed range must end within the capacity.
pub open spec fn claim_ok(next: nat, cap: nat, len: nat) -> bool {
    next < cap && next + len <= cap
}

/// The cursor after a claim of `len` elements was attempted with the
/// cursor at `next` in a buffer of `cap` elements.  A successful claim
/// advances the cursor past the claimed range.  A failed claim of a
/// length that the buffer could in principle hold pins the cursor at
/// the capacity, so no later, smaller claim can slip past the point of
/// exhaustion.  A failed claim of a length longer than the whole
/// buffer leaves the cursor where it was.
pub open spec fn claim_next(next: nat, cap: nat, len: nat) -> nat {
    if claim_ok(next, cap, len) {
        next + len
    } else if len <= cap {
        cap
    } else {
        next
    }
}

/// A fixed-capacity buffer with a monotonically advancing claim cursor.
///
/// Successful claims return pairwise disjoint offsets; the cursor never
/// moves backwards; once the cursor reaches the capacity the splitter
/// is exhausted for good.
pub struct SyncSplitter<T> {
    data: Vec<T>,
    next: usize,
}

impl<T> SyncSplitter<T> {
    /// How many elements have been claimed, or — after a failed claim of
    /// a representable length — the capacity itself.
    pub closed spec fn cursor(self) -> nat {
        self.next as nat
    }

    /// The total number of elements in the buffer, fixed at construction.
    pub closed spec fn capacity(self) -> nat {
        self.data@.len()
    }

    /// The buffer's contents.
    pub closed spec fn buf(self) -> Seq<T> {
        self.data@
    }

    /// The cursor never passes the capacity, and the capacity stays
    /// within the range of non-negative signed offsets, so every offset
    /// in the buffer is representable as a signed distance.
    pub open spec fn wf(self) -> bool {
        &&& self.cursor() <= self.capacity()
        &&& self.capacity() <= isize::MAX as nat
    }

    /// Creates a new `SyncSplitter` over a buffer, with nothing claimed
    /// yet.  The buffer may hold at most `isize::MAX` elements, the
    /// addressing limit for offsets into it.
    pub fn new(data: Vec<T>) -> (s: Self)
        requires
            data@.len() <= isize::MAX as nat,
        ensures
            s.wf(),
            s.cursor() == 0,
            s.capacity() == data@.len(),
            s.buf() == data@,
    {
        SyncSplitter { data, next: 0 }
    }

    /// The fundamental claim operation: attempts to advance the cursor
    /// by `len` elements.  On success, returns the offset where the
    /// claimed range starts.  On failure, returns `None` and pins the
    /// cursor at the capacity — unless `len` exceeds the capacity
    /// altogether, in which case the cursor is left untouched.
    pub fn bump(&mut self, len: usize) -> (r: Option<usize>)
        requires
            old(self).wf(),
        ensures
            final(self).wf(),
            final(self).buf() == old(self).buf(),
            final(self).capacity() == old(self).capacity(),
            final(self).cursor() == claim_next(
                old(self).cursor(),
                old(self).capacity(),
                len as nat,
            ),
            old(self).cursor() <= final(self).cursor(),
            r is Some <==> claim_ok(old(self).cursor(), old(self).capacity(), len as nat),
            r matches Some(start) ==> start as nat == old(self).cursor(),
    {
        let cap: usize = self.data.len();
        if self.next < cap && len <= cap - self.next {
            let start: usize = self.next;
            self.next = start + len;
            Some(start)
        } else {
            if len <= cap {
                self.next = cap;
            }
            None
        }
    }

    /// Claims one element; returns its offset in the buffer, or `None`
    /// once the buffer is exhausted.
    pub fn pop(&mut self) -> (r: Option<usize>)
        requires
            old(self).wf(),
        ensures
            final(self).wf(),
            final(self).buf() == old(self).buf(),
            final(self).capacity() == old(self).capacity(),
            final(self).cursor() == claim_next(old(self).cursor(), old(self).capacity(), 1),
            r is Some <==> claim_ok(old(self).cursor(), old(self).capacity(), 1),
            r matches Some(start) ==> start as nat == old(self).cursor(),
    {
        self.bump(1)
    }

    /// Claims two consecutive elements; returns the offset of the first,
    /// or `None` if fewer than two elements remain.
    pub fn pop_two(&mut self) -> (r: Option<usize>)
        requires
            old(self).wf(),
        ensures
            final(self).wf(),
            final(self).buf() == old(self).buf(),
            final(self).capacity() == old(self).capacity(),
            final(self).cursor() == claim_next(old(self).cursor(), old(self).capacity(), 2),
            r is Some <==> claim_ok(old(self).cursor(), old(self).capacity(), 2),
            r matches Some(start) ==> start as nat == old(self).cursor(),
    {
        self.bump(2)
    }

    /// Claims `len` consecutive elements; returns the offset where the
    /// claimed range starts, or `None` if not enough elements remain.
    pub fn pop_n(&mut self, len: usize) -> (r: Option<usize>)
        requires
            old(self).wf(),
        ensures
            final(self).wf(),
            final(self).buf() == old(self).buf(),
            final(self).capacity() == old(self).capacity(),
            final(self).cursor() == claim_next(
                old(self).cursor(),
                old(self).capacity(),
                len as nat,
            ),
            r is Some <==> claim_ok(old(self).cursor(), old(self).capacity(), len as nat),
            r matches Some(start) ==> start as nat == old(self).cursor(),
    {
        self.bump(len)
    }

    /// Reads the element at offset `i`.
    pub fn read(&self, i: usize) -> (e: &T)
        requires
            i < self.capacity(),
        ensures
            *e == self.buf()[i as int],
    {
        &self.data[i]
    }

    /// Writes `value` into the element at offset `i`, which must lie in
    /// a range already claimed: only claimed elements may be written.
    pub fn write(&mut self, i: usize, value: T)
        requires
            old(self).wf(),
            i < old(self).cursor(),
        ensures
            final(self).wf(),
            final(self).cursor() == old(self).cursor(),
            final(self).capacity() == old(self).capacity(),
            final(self).buf() == old(self).buf().update(i as int, value),
    {
        self.data[i] = value;
    }

    /// Consumes the splitter, returning the total number of claimed
    /// elements — the high-water mark, which the caller may use to
    /// truncate the buffer — together with the buffer itself.
    ///
    /// Every claimant must be finished with the splitter before this is
    /// called; consuming `self` enforces that here, since no shared
    /// reference to the splitter can outlive the call.
    pub fn done(self) -> (r: (usize, Vec<T>))
        ensures
            r.0 as nat == self.cursor(),
            r.1@ == self.buf(),
    {
        (self.next, self.data)
    }
}

/// The sum of the first `i` lengths in `lens`: the cursor position
/// after the first `i` claims of a run in which every claim succeeds,
/// and thus the offset that claim `i` receives.
pub open spec fn prefix_sum(lens: Seq<nat>, i: int) -> nat
    decreases i,
{
    if i <= 0 {
        0
    } else {
        prefix_sum(lens, i - 1) + lens[i - 1]
    }
}

proof fn lemma_prefix_sum_mono(lens: Seq<nat>, i: int, j: int)
    requires
        0 <= i <= j,
    ensures
        prefix_sum(lens, i) <= prefix_sum(lens, j),
    decreases j,
{
    if i < j {
        lemma_prefix_sum_mono(lens, i, j - 1);
    }
}

proof fn lemma_prefix_sum_cover(lens: Seq<nat>, k: int, x: int)
    requires
        0 <= k <= lens.len(),
        0 <= x < prefix_sum(lens, k),
    ensures
        exists|i: int|
            0 <= i < k && #[trigger] prefix_sum(lens, i) <= x < prefix_sum(lens, i) + lens[i],
    decreases k,
{
    if prefix_sum(lens, k - 1) <= x {
        assert(0 <= k - 1 < k && prefix_sum(lens, k - 1) <= x < prefix_sum(lens, k - 1)
            + lens[k - 1]);
    } else {
        lemma_prefix_sum_cover(lens, k - 1, x);
    }
}

/// Whether offset `x` of the buffer falls inside one of the ranges
/// granted to a run of claims with lengths `lens` in which every claim
/// succeeds, claim `i` receiving the range that starts at
/// `prefix_sum(lens, i)`.
pub open spec fn covered_by_claim(lens: Seq<nat>, x: int) -> bool {
    exists|i: int|
        0 <= i < lens.len() && #[trigger] prefix_sum(lens, i) <= x < prefix_sum(lens, i)
            + lens[i]
}

/// For any run of claims with lengths `lens` whose sum fits the
/// capacity — and in which no claim arrives after the buffer is
/// already exactly exhausted — every claim succeeds, claim `i` is
/// granted the offset `prefix_sum(lens, i)`, the granted ranges are
/// pairwise disjoint, and together they cover `[0, sum)` without gaps:
/// the offsets partition the claimed prefix of the buffer in cursor
/// order.
pub proof fn lemma_claims_partition(cap: nat, lens: Seq<nat>)
    requires
        prefix_sum(lens, lens.len() as int) <= cap,
        forall|i: int| 0 <= i < lens.len() ==> prefix_sum(lens, i) < cap,
    ensures
        forall|i: int|
            0 <= i < lens.len() ==> claim_ok(prefix_sum(lens, i), cap, lens[i]),
        forall|i: int|
            0 <= i < lens.len() ==> claim_next(prefix_sum(lens, i), cap, lens[i])
                == prefix_sum(lens, i + 1),
        forall|i: int, j: int|
            0 <= i < j < lens.len() ==> prefix_sum(lens, i) + lens[i] <= prefix_sum(
                lens,
                j,
            ),
        forall|x: int|
            0 <= x < prefix_sum(lens, lens.len() as int) ==> #[trigger] covered_by_claim(
                lens,
                x,
            ),
{
    assert forall|i: int| 0 <= i < lens.len() implies claim_ok(
        prefix_sum(lens, i),
        cap,
        lens[i],
    ) by {
        lemma_prefix_sum_mono(lens, i + 1, lens.len() as int);
        assert(prefix_sum(lens, i + 1) == prefix_sum(lens, i) + lens[i]);
    }
    assert forall|i: int| 0 <= i < lens.len() implies claim_next(
        prefix_sum(lens, i),
        cap,
        lens[i],
    ) == prefix_sum(lens, i + 1) by {
        assert(prefix_sum(lens, i + 1) == prefix_sum(lens, i) + lens[i]);
    }
    assert forall|i: int, j: int| 0 <= i < j < lens.len() implies prefix_sum(lens, i)
        + lens[i] <= prefix_sum(lens, j) by {
        lemma_prefix_sum_mono(lens, i + 1, j);
        assert(prefix_sum(lens, i + 1) == prefix_sum(lens, i) + lens[i]);
    }
    assert forall|x: int| 0 <= x < prefix_sum(lens, lens.len() as int) implies #[trigger] covered_by_claim(
        lens,
        x,
    ) by {
        lemma_prefix_sum_cover(lens, lens.len() as int, x);
    }
}

/// Exhaustion is permanent.  When a claim of a length the buffer could
/// in principle hold fails, the cursor is pinned at the capacity, and
/// from there every claim of every length — zero included — fails and
/// leaves the cursor at the capacity, so the final count reported
/// later equals the count at the moment of the first such failure.
pub proof fn lemma_exhaustion_idempotent(next: nat, cap: nat, len: nat)
    requires
        next <= cap,
        len <= cap,
        !claim_ok(next, cap, len),
    ensures
        claim_next(next, cap, len) == cap,
        forall|l: nat| !claim_ok(cap, cap, l),
        forall|l: nat| claim_next(cap, cap, l) == cap,
{
}

/// Exact fit: on a fresh, non-empty buffer, a claim of exactly the
/// capacity succeeds at offset 0 and exhausts the buffer in the same
/// call, so every later claim fails and the final count equals the
/// capacity.
pub proof fn lemma_exact_fit(cap: nat)
    requires
        cap > 0,
    ensures
        claim_ok(0, cap, cap),
        claim_next(0, cap, cap) == cap,
        forall|l: nat| !claim_ok(cap, cap, l),
        forall|l: nat| claim_next(cap, cap, l) == cap,
{
}

/// Claims are monotonic: whatever length is requested, and whether or
/// not the claim succeeds, the cursor after the attempt is no smaller
/// than the cursor before it.  There is no way to release a range.
pub proof fn lemma_cursor_monotonic(next: nat, cap: nat, len: nat)
    requires
        next <= cap,
    ensures
        next <= claim_next(next, cap, len),
{
}

/// A claim longer than the whole buffer can never fit: it fails and
/// leaves the cursor exactly where it was.  In particular, a claim of
/// `cap + 1` on a fresh buffer fails and the final count afterwards is
/// still 0, and a later claim that does fit may still succeed.
pub proof fn lemma_over_capacity(next: nat, cap: nat, len: nat)
    requires
        next <= cap,
        len > cap,
    ensures
        !claim_ok(next, cap, len),
        claim_next(next, cap, len) == next,
{
}

} // verus!
