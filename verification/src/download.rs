//! One worker's pass over its share of the download list, and the progress
//! of one transfer.

use crate::canvas::File;
use crate::report::{download_label, download_label_of};
use crate::schedule::{
    is_partition, lemma_slices_contiguous, slice_end, slice_start, WorkSlice,
};
use crate::text::{expected_size, expected_size_of};
use vstd::prelude::*;

verus! {

/// How a worker's files ended so far.
#[derive(Clone, Copy, Debug, PartialEq, Eq, Structural)]
pub struct Tally {
    /// Files whose transfer ran to the end of the stream.
    pub downloaded: usize,
    /// Files given up because the header-only request was unsuccessful.
    pub skipped: usize,
}

/// What to do with a file once its header-only request has been answered.
#[derive(Clone, Copy, Debug, PartialEq, Eq, Structural)]
pub enum Probe {
    /// The request was unsuccessful: the file is given up, without retry.
    Skip,
    /// The file is fetched; the progress indicator gets this total.
    Fetch { expected: u64 },
}

/// The decision that follows a header-only request: an unsuccessful one
/// gives the file up, a successful one starts the transfer with the
/// announced content length as the expected size, or zero where none usable
/// was announced.
pub open spec fn probe_of(success: bool, content_length: Option<Seq<char>>) -> Probe {
    if success {
        Probe::Fetch { expected: expected_size_of(content_length) }
    } else {
        Probe::Skip
    }
}

/// Decides what follows the header-only request of a file.
pub fn probe(success: bool, content_length: Option<&str>) -> (decision: Probe)
    ensures
        decision == probe_of(
            success,
            match content_length {
                Some(text) => Some(text@),
                None => None,
            },
        ),
{
    if success {
        Probe::Fetch { expected: expected_size(content_length) }
    } else {
        Probe::Skip
    }
}

/// The progress indicator of one transfer.
#[derive(Debug, PartialEq, Eq)]
pub struct Progress {
    /// Expected size of the transfer in bytes; zero when unknown.
    pub total: u64,
    /// Bytes written so far.
    pub position: u64,
    /// The label shown beside the bar.
    pub message: String,
    /// Whether the stream has ended.
    pub finished: bool,
}

/// The sum of the chunk lengths of a stream.
pub open spec fn stream_len(chunks: Seq<nat>) -> nat
    decreases chunks.len(),
{
    if chunks.len() == 0 {
        0
    } else {
        stream_len(chunks.drop_last()) + chunks.last()
    }
}

/// The position of an indicator that stood at `position` and then counted
/// every chunk of `chunks` as it was written.
pub open spec fn position_after(position: nat, chunks: Seq<nat>) -> nat
    decreases chunks.len(),
{
    if chunks.len() == 0 {
        position
    } else {
        position_after(position, chunks.drop_last()) + chunks.last()
    }
}

/// Progress accounting: an indicator that counts each chunk when it is
/// written has advanced by exactly the number of bytes written, whatever
/// total it was given; one that started at zero shows the size of the file.
pub proof fn lemma_progress_counts_every_byte(position: nat, chunks: Seq<nat>)
    ensures
        position_after(position, chunks) == position + stream_len(chunks),
        position_after(0, chunks) == stream_len(chunks),
    decreases chunks.len(),
{
    if chunks.len() > 0 {
        lemma_progress_counts_every_byte(position, chunks.drop_last());
        lemma_progress_counts_every_byte(0, chunks.drop_last());
    }
}

impl Progress {
    /// An indicator at zero of `total` bytes, labelled `message`.
    pub fn new(total: u64, message: String) -> (progress: Progress)
        ensures
            progress.total == total,
            progress.position == 0,
            progress.message@ == message@,
            !progress.finished,
    {
        Progress { total, position: 0, message, finished: false }
    }

    /// The indicator of the transfer of `file`, created once the expected
    /// size is known: at zero of `expected` bytes, labelled with what is
    /// fetched and where it is written.
    pub fn for_file(file: &File, expected: u64) -> (progress: Progress)
        ensures
            progress.total == expected,
            progress.position == 0,
            progress.message@ == download_label_of(file@.filename, file@.filepath),
            !progress.finished,
    {
        Progress::new(expected, download_label(file))
    }

    /// Counts a chunk of `bytes` bytes that has been written. The position
    /// may pass the total: the total is what the response announced, the
    /// position is what arrived.
    pub fn inc(&mut self, bytes: usize)
        requires
            old(self).position + bytes <= u64::MAX,
        ensures
            final(self).position == position_after(old(self).position as nat, seq![bytes as nat]),
            final(self).position == old(self).position + bytes,
            final(self).total == old(self).total,
            final(self).message == old(self).message,
            final(self).finished == old(self).finished,
    {
        proof {
            reveal_with_fuel(position_after, 2);
        }
        self.position = self.position + bytes as u64;
    }

    /// Marks the end of the stream.
    pub fn finish(&mut self)
        ensures
            final(self).finished,
            final(self).position == old(self).position,
            final(self).total == old(self).total,
            final(self).message == old(self).message,
    {
        self.finished = true;
    }
}

/// A worker's pass over its range of the download list, one file after the
/// other. The file in turn always lies in the range or at its end, and every
/// file before it has been counted exactly once, as downloaded or as
/// skipped.
#[derive(Clone, Copy, Debug, PartialEq, Eq)]
pub struct Worker {
    slice: WorkSlice,
    next: usize,
    tally: Tally,
}

/// Mathematical content of a [`Worker`].
pub struct WorkerView {
    /// The range that the worker owns.
    pub slice: WorkSlice,
    /// Index of the file in turn; the end of the range when none is left.
    pub next: usize,
    /// How the files before `next` ended.
    pub tally: Tally,
}

impl WorkerView {
    /// Whether every file of the range has ended.
    pub open spec fn is_finished(self) -> bool {
        self.next == self.slice.end
    }

    /// The file in turn lies in the range or at its end, and every file
    /// before it has been counted exactly once.
    pub open spec fn wf(self) -> bool {
        &&& self.slice.start <= self.next <= self.slice.end
        &&& self.tally.downloaded + self.tally.skipped == self.next - self.slice.start
    }
}

impl View for Worker {
    type V = WorkerView;

    closed spec fn view(&self) -> WorkerView {
        WorkerView { slice: self.slice, next: self.next, tally: self.tally }
    }
}

impl Worker {
    #[verifier::type_invariant]
    spec fn inv(self) -> bool {
        self@.wf()
    }

    /// A worker at the beginning of `slice`; `None` for a range that ends
    /// before it begins.
    pub fn new(slice: WorkSlice) -> (worker: Option<Worker>)
        ensures
            match worker {
                Some(w) => slice.start <= slice.end && w@ == (WorkerView {
                    slice,
                    next: slice.start,
                    tally: Tally { downloaded: 0, skipped: 0 },
                }),
                None => slice.start > slice.end,
            },
    {
        if slice.start <= slice.end {
            Some(Worker { slice, next: slice.start, tally: Tally { downloaded: 0, skipped: 0 } })
        } else {
            None
        }
    }

    /// The range that this worker owns.
    pub fn slice(&self) -> (slice: WorkSlice)
        ensures
            slice == self@.slice,
            self@.wf(),
    {
        proof {
            use_type_invariant(self);
        }
        self.slice
    }

    /// How the files handled so far ended. Together they are the files of
    /// the range before the file in turn.
    pub fn tally(&self) -> (tally: Tally)
        ensures
            tally == self@.tally,
            self@.wf(),
    {
        proof {
            use_type_invariant(self);
        }
        self.tally
    }

    /// The index of the file in turn, or `None` once the range is done.
    pub fn current(&self) -> (index: Option<usize>)
        ensures
            self@.wf(),
            index == if self@.is_finished() {
                None
            } else {
                Some(self@.next)
            },
    {
        proof {
            use_type_invariant(self);
        }
        if self.next < self.slice.end {
            Some(self.next)
        } else {
            None
        }
    }

    /// Gives up the file in turn after an unsuccessful header-only request
    /// and moves to the next file of the range. A worker that is done stays
    /// as it is.
    pub fn skip(&mut self)
        ensures
            final(self)@ == if old(self)@.is_finished() {
                old(self)@
            } else {
                WorkerView {
                    next: (old(self)@.next + 1) as usize,
                    tally: Tally {
                        skipped: (old(self)@.tally.skipped + 1) as usize,
                        ..old(self)@.tally
                    },
                    ..old(self)@
                }
            },
    {
        proof {
            use_type_invariant(&*self);
        }
        if self.next < self.slice.end {
            *self = Worker {
                slice: self.slice,
                next: self.next + 1,
                tally: Tally { downloaded: self.tally.downloaded, skipped: self.tally.skipped + 1 },
            };
        }
    }

    /// Counts the file in turn as downloaded, once its stream has ended, and
    /// moves to the next file of the range. A worker that is done stays as
    /// it is.
    pub fn complete(&mut self)
        ensures
            final(self)@ == if old(self)@.is_finished() {
                old(self)@
            } else {
                WorkerView {
                    next: (old(self)@.next + 1) as usize,
                    tally: Tally {
                        downloaded: (old(self)@.tally.downloaded + 1) as usize,
                        ..old(self)@.tally
                    },
                    ..old(self)@
                }
            },
    {
        proof {
            use_type_invariant(&*self);
        }
        if self.next < self.slice.end {
            *self = Worker {
                slice: self.slice,
                next: self.next + 1,
                tally: Tally { downloaded: self.tally.downloaded + 1, skipped: self.tally.skipped },
            };
        }
    }
}

/// The number of files that the first `count` workers downloaded.
pub open spec fn downloaded_by(workers: Seq<WorkerView>, count: int) -> int
    decreases count,
{
    if count <= 0 {
        0
    } else {
        downloaded_by(workers, count - 1) + workers[count - 1].tally.downloaded
    }
}

/// The number of files that the first `count` workers gave up.
pub open spec fn skipped_by(workers: Seq<WorkerView>, count: int) -> int
    decreases count,
{
    if count <= 0 {
        0
    } else {
        skipped_by(workers, count - 1) + workers[count - 1].tally.skipped
    }
}

/// The first `count` workers of a split, all finished, account for the files
/// before the range of worker `count`.
pub proof fn lemma_accounted_up_to(n: int, w: int, workers: Seq<WorkerView>, count: int)
    requires
        0 <= n,
        1 <= w,
        workers.len() == w,
        0 <= count <= w,
        is_partition(workers.map_values(|worker: WorkerView| worker.slice), n, w),
        forall|i: int| 0 <= i < w ==> (#[trigger] workers[i]).wf() && workers[i].is_finished(),
    ensures
        downloaded_by(workers, count) + skipped_by(workers, count) == slice_start(n, w, count),
    decreases count,
{
    if count > 0 {
        lemma_accounted_up_to(n, w, workers, count - 1);
        lemma_slices_contiguous(n, w);
        let slices = workers.map_values(|worker: WorkerView| worker.slice);
        assert(slices[count - 1] == workers[count - 1].slice);
    }
}

/// Every file is accounted for: when `n` files are split across `w` workers
/// and every worker has finished its range, the files downloaded are the `n`
/// files less those given up after an unsuccessful header-only request.
pub proof fn lemma_every_file_accounted_for(n: int, w: int, workers: Seq<WorkerView>)
    requires
        0 <= n,
        1 <= w,
        workers.len() == w,
        is_partition(workers.map_values(|worker: WorkerView| worker.slice), n, w),
        forall|i: int| 0 <= i < w ==> (#[trigger] workers[i]).wf() && workers[i].is_finished(),
    ensures
        downloaded_by(workers, w) == n - skipped_by(workers, w),
{
    lemma_accounted_up_to(n, w, workers, w);
    lemma_slices_contiguous(n, w);
}

} // verus!
