//! Static partitioning of the finished download list across a fixed pool of
//! workers.

use vstd::prelude::*;

verus! {

/// A contiguous range `[start, end)` of the finished download list, owned by
/// exactly one worker.
#[derive(Clone, Copy, Debug, PartialEq, Eq, Structural)]
pub struct WorkSlice {
    pub start: usize,
    pub end: usize,
}

/// Number of items that worker `i` of `w` receives out of `n`: the integer
/// share, plus one for each of the first `n % w` workers.
pub open spec fn slice_len(n: int, w: int, i: int) -> int {
    n / w + if i < n % w { 1int } else { 0int }
}

/// Index at which the range of worker `i` begins: the shares of all earlier
/// workers laid end to end from index zero.
pub open spec fn slice_start(n: int, w: int, i: int) -> int {
    i * (n / w) + if i < n % w { i } else { n % w }
}

/// Index one past the last item of worker `i`.
pub open spec fn slice_end(n: int, w: int, i: int) -> int {
    slice_start(n, w, i) + slice_len(n, w, i)
}

/// `slices` is the split of `n` items across `w` workers, in worker order.
pub open spec fn is_partition(slices: Seq<WorkSlice>, n: int, w: int) -> bool {
    &&& slices.len() == w
    &&& forall|i: int|
        0 <= i < w ==> (#[trigger] slices[i]).start == slice_start(n, w, i) && slices[i].end
            == slice_end(n, w, i)
}

/// Each range begins where the previous one ended, the first begins at zero
/// and the last ends at `n`.
pub proof fn lemma_slices_contiguous(n: int, w: int)
    requires
        0 <= n,
        1 <= w,
    ensures
        slice_start(n, w, 0) == 0,
        slice_end(n, w, w - 1) == n,
        slice_start(n, w, w) == n,
        forall|i: int| 0 <= i < w ==> #[trigger] slice_end(n, w, i) == slice_start(n, w, i + 1),
{
    let q = n / w;
    let r = n % w;
    assert(n == w * q + r && 0 <= r < w) by (nonlinear_arith)
        requires
            0 <= n,
            1 <= w,
            q == n / w,
            r == n % w,
    ;
    assert forall|i: int| 0 <= i < w implies #[trigger] slice_end(n, w, i) == slice_start(
        n,
        w,
        i + 1,
    ) by {
        assert((i + 1) * q == i * q + q) by (nonlinear_arith);
    }
}

/// Range boundaries never decrease with the worker index and stay within
/// `[0, n]`.
pub proof fn lemma_slice_start_monotonic(n: int, w: int, i: int, j: int)
    requires
        0 <= n,
        1 <= w,
        0 <= i <= j <= w,
    ensures
        0 <= slice_start(n, w, i) <= slice_start(n, w, j) <= n,
{
    let q = n / w;
    let r = n % w;
    assert(n == w * q + r && 0 <= r < w && 0 <= q) by (nonlinear_arith)
        requires
            0 <= n,
            1 <= w,
            q == n / w,
            r == n % w,
    ;
    assert(0 <= i * q <= j * q <= w * q) by (nonlinear_arith)
        requires
            0 <= i <= j <= w,
            0 <= q,
    ;
}

/// The sizes of any two ranges differ by at most one, and no later worker
/// receives more than an earlier one.
pub proof fn lemma_sizes_balanced(n: int, w: int, i: int, j: int)
    requires
        0 <= n,
        1 <= w,
        0 <= i <= j < w,
    ensures
        0 <= slice_len(n, w, j) <= slice_len(n, w, i) <= slice_len(n, w, j) + 1,
{
}

/// Two different workers never share an index: the earlier range ends before
/// the later one begins.
pub proof fn lemma_slices_disjoint(n: int, w: int, i: int, j: int)
    requires
        0 <= n,
        1 <= w,
        0 <= i < j < w,
    ensures
        slice_end(n, w, i) <= slice_start(n, w, j),
{
    lemma_slices_contiguous(n, w);
    lemma_slice_start_monotonic(n, w, i + 1, j);
}

/// The worker whose range holds index `k`.
pub open spec fn owner(n: int, w: int, k: int) -> int {
    let q = n / w;
    let r = n % w;
    if k < r * (q + 1) {
        k / (q + 1)
    } else {
        r + (k - r * (q + 1)) / q
    }
}

/// Every index of `[0, n)` lies in the range of exactly one worker.
pub proof fn lemma_covered_exactly_once(n: int, w: int, k: int)
    requires
        1 <= w,
        0 <= k < n,
    ensures
        0 <= owner(n, w, k) < w,
        slice_start(n, w, owner(n, w, k)) <= k < slice_end(n, w, owner(n, w, k)),
        forall|i: int|
            0 <= i < w && slice_start(n, w, i) <= k < #[trigger] slice_end(n, w, i) ==> i == owner(
                n,
                w,
                k,
            ),
{
    let q = n / w;
    let r = n % w;
    let o = owner(n, w, k);
    assert(n == w * q + r && 0 <= r < w && 0 <= q) by (nonlinear_arith)
        requires
            0 <= n,
            1 <= w,
            q == n / w,
            r == n % w,
    ;
    if k < r * (q + 1) {
        assert(0 <= o < r && o * (q + 1) <= k < o * (q + 1) + (q + 1)) by (nonlinear_arith)
            requires
                0 <= k < r * (q + 1),
                0 <= q,
                o == k / (q + 1),
        ;
        assert(o * (q + 1) == o * q + o) by (nonlinear_arith);
    } else {
        let d = k - r * (q + 1);
        assert(r * (q + 1) == r * q + r) by (nonlinear_arith);
        assert(w * q == r * q + (w - r) * q) by (nonlinear_arith);
        let e = d / q;
        assert(0 <= e < w - r && e * q <= d < e * q + q) by (nonlinear_arith)
            requires
                0 <= d < (w - r) * q,
                0 < q,
                e == d / q,
        ;
        assert((r + e) * q == r * q + e * q) by (nonlinear_arith);
    }
    assert forall|i: int|
        0 <= i < w && slice_start(n, w, i) <= k < #[trigger] slice_end(n, w, i) implies i == o by {
        if i < o {
            lemma_slices_disjoint(n, w, i, o);
        } else if o < i {
            lemma_slices_disjoint(n, w, o, i);
        }
    }
}

/// The laws of a split, stated of its ranges: they run from zero to `n`
/// without a gap, no two of them overlap, their sizes differ by at most one,
/// and every index of `[0, n)` lies in one of them (in no second one, as
/// they do not overlap).
pub proof fn lemma_partition_laws(slices: Seq<WorkSlice>, n: int, w: int)
    requires
        0 <= n,
        1 <= w,
        is_partition(slices, n, w),
    ensures
        slices[0].start == 0,
        slices[w - 1].end == n,
        forall|i: int| 0 <= i < w ==> (#[trigger] slices[i]).start <= slices[i].end,
        forall|i: int| 0 < i < w ==> slices[i - 1].end == (#[trigger] slices[i]).start,
        forall|i: int, j: int|
            0 <= i < j < w ==> (#[trigger] slices[i]).end <= (#[trigger] slices[j]).start,
        forall|i: int, j: int|
            0 <= i < w && 0 <= j < w ==> ((#[trigger] slices[i]).end - slices[i].start) - ((
            #[trigger] slices[j]).end - slices[j].start) <= 1,
        forall|k: int|
            0 <= k < n ==> 0 <= #[trigger] owner(n, w, k) < w && slices[owner(n, w, k)].start <= k
                < slices[owner(n, w, k)].end,
{
    lemma_slices_contiguous(n, w);
    assert forall|i: int, j: int| 0 <= i < j < w implies (#[trigger] slices[i]).end <= (
    #[trigger] slices[j]).start by {
        lemma_slices_disjoint(n, w, i, j);
    }
    assert forall|k: int| 0 <= k < n implies 0 <= #[trigger] owner(n, w, k) < w && slices[owner(
        n,
        w,
        k,
    )].start <= k < slices[owner(n, w, k)].end by {
        lemma_covered_exactly_once(n, w, k);
    }
}

/// Splits `n` items across `workers` workers: worker `i` receives the range
/// `[slice_start, slice_end)` for its index, so the first `n % workers`
/// workers hold one item more than the rest.
pub fn partition(n: usize, workers: usize) -> (slices: Vec<WorkSlice>)
    requires
        workers >= 1,
    ensures
        is_partition(slices@, n as int, workers as int),
{
    let extra: usize = n % workers;
    let share: usize = n / workers;
    let mut slices: Vec<WorkSlice> = Vec::new();
    let mut start: usize = 0;
    let mut i: usize = 0;
    while i < workers
        invariant
            workers >= 1,
            i <= workers,
            extra == n % workers,
            share == n / workers,
            start == slice_start(n as int, workers as int, i as int),
            slices@.len() == i,
            forall|k: int|
                0 <= k < i ==> (#[trigger] slices@[k]).start == slice_start(
                    n as int,
                    workers as int,
                    k,
                ) && slices@[k].end == slice_end(n as int, workers as int, k),
        decreases workers - i,
    {
        proof {
            lemma_slices_contiguous(n as int, workers as int);
            lemma_slice_start_monotonic(n as int, workers as int, i as int + 1, workers as int);
            assert(slice_end(n as int, workers as int, i as int) == slice_start(
                n as int,
                workers as int,
                i as int + 1,
            ));
        }
        let work: usize = if i < extra {
            share + 1
        } else {
            share
        };
        let end: usize = start + work;
        slices.push(WorkSlice { start, end });
        start = end;
        i = i + 1;
    }
    slices
}

/// Calls `num_cpus::get`, the number of logical cores available to this
/// process. Trusted: the count is at least one, as the crate documents.
#[verifier::external_body]
fn available_cores() -> (cores: usize)
    ensures
        cores >= 1,
{
    num_cpus::get()
}

/// Splits `n` items across as many workers as this machine has cores
/// available. Whatever that number is, the ranges are the split of `n`
/// across their own count.
pub fn plan_downloads(n: usize) -> (slices: Vec<WorkSlice>)
    ensures
        slices@.len() >= 1,
        is_partition(slices@, n as int, slices@.len() as int),
{
    partition(n, available_cores())
}

} // verus!
