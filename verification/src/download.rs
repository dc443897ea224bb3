//! The resumable-download planner.
//!
//! A download transfers one asset in bounded chunks over ranged requests.
//! The planner decides, between any two requests, which byte range to ask
//! for next, how far the window advances after a response, and which
//! progress fraction to report; the surrounding worker performs the actual
//! transfer and polls the cancellation flag between chunks.

use vstd::prelude::*;

use crate::errors::DownloadError;
use crate::strutil::{content_len_digits, digits_val, is_valid_content_len, parse_u64};

verus! {

/// Upper bound on the size of one ranged request, in bytes (8 MiB + 1).
pub const DEF_CHUNK_SIZE: u64 = 8 * 1024 * 1024 + 1;

/// The smaller of two byte counts.
pub open spec fn spec_min(a: u64, b: u64) -> u64 {
    if a <= b {
        a
    } else {
        b
    }
}

/// A progress fraction `num / den`, bounded to `[0, 1]`: the reported
/// fraction of a stage that is complete.
#[derive(Clone, Copy, Debug, PartialEq, Eq, Structural)]
pub struct Progress {
    pub num: u64,
    pub den: u64,
}

impl Progress {
    /// A progress fraction never exceeds one.
    pub open spec fn wf(&self) -> bool {
        self.num <= self.den
    }
}

/// What a download loop should do next: stop (the transfer is complete or
/// was cancelled), or fetch the byte range `[low, up)`.
#[derive(Clone, Copy, Debug, PartialEq, Eq, Structural)]
pub enum DownloadPoll {
    Stop,
    Fetch(u64, u64),
}

/// The state of one resumable download: a window `[low_bound, up_bound)`
/// over the content, and the byte count transferred so far.
#[derive(Clone, Copy, Debug, PartialEq, Eq, Structural)]
pub struct DownloadPlan {
    pub content_size: u64,
    pub chunk_size: u64,
    pub low_bound: u64,
    pub up_bound: u64,
    pub total_downloaded: u64,
    pub finished: bool,
}

impl DownloadPlan {
    /// Well-formedness of a download plan: the chunk size is the bounded
    /// chunk cap, and while unfinished the request window sits between the
    /// transferred prefix and the end of the content.
    pub open spec fn wf(&self) -> bool {
        &&& self.chunk_size == spec_min(DEF_CHUNK_SIZE, self.content_size)
        &&& (self.finished <==> self.total_downloaded >= self.content_size)
        &&& !self.finished ==> self.low_bound <= self.total_downloaded
        &&& !self.finished ==> self.low_bound < self.up_bound <= self.content_size
    }

    /// The plan a fresh download of `content_size` bytes starts from.
    pub open spec fn spec_new(content_size: u64) -> DownloadPlan {
        DownloadPlan {
            content_size,
            chunk_size: spec_min(DEF_CHUNK_SIZE, content_size),
            low_bound: 0,
            up_bound: spec_min(DEF_CHUNK_SIZE, content_size),
            total_downloaded: 0,
            finished: content_size == 0,
        }
    }

    /// Starts a new download plan. A download of zero bytes is complete
    /// from the start: no range is ever requested, so no progress update
    /// divides by the content size.
    pub fn new(content_size: u64) -> (r: DownloadPlan)
        ensures
            r == DownloadPlan::spec_new(content_size),
            r.wf(),
    {
        let chunk_size: u64 = if DEF_CHUNK_SIZE <= content_size {
            DEF_CHUNK_SIZE
        } else {
            content_size
        };
        DownloadPlan {
            content_size,
            chunk_size,
            low_bound: 0,
            up_bound: chunk_size,
            total_downloaded: 0,
            finished: content_size == 0,
        }
    }

    /// What the download loop does next, given the cancellation flag as
    /// observed at this checkpoint.
    pub open spec fn spec_poll(&self, cancelled: bool) -> DownloadPoll {
        if cancelled || self.finished {
            DownloadPoll::Stop
        } else {
            DownloadPoll::Fetch(self.low_bound, self.up_bound)
        }
    }

    /// Decides the next action of the download loop. When the cancellation
    /// flag was observed set, the loop stops at once and the partial file
    /// counts as success; otherwise the bytes `[low, up)` are requested.
    pub fn poll(&self, cancelled: bool) -> (r: DownloadPoll)
        ensures
            r == self.spec_poll(cancelled),
            cancelled ==> r is Stop,
    {
        if cancelled || self.finished {
            DownloadPoll::Stop
        } else {
            DownloadPoll::Fetch(self.low_bound, self.up_bound)
        }
    }

    /// The plan after a successful chunk of `received` bytes: the total
    /// grows by the full received count, and the window advances by at
    /// most one chunk cap, so a server that returns fewer bytes than
    /// requested loses no data; the upper bound is clamped to the content
    /// size.
    pub open spec fn spec_on_chunk(self, received: u64) -> DownloadPlan {
        let total = (self.total_downloaded + received) as u64;
        if total >= self.content_size {
            DownloadPlan { total_downloaded: total, finished: true, ..self }
        } else {
            let inc = spec_min(received, self.chunk_size);
            let up = if self.up_bound + inc <= self.content_size {
                (self.up_bound + inc) as u64
            } else {
                self.content_size
            };
            DownloadPlan {
                total_downloaded: total,
                low_bound: (self.low_bound + inc) as u64,
                up_bound: up,
                ..self
            }
        }
    }

    /// The progress fraction reported after a chunk: transferred bytes
    /// over content size, bounded to one.
    pub open spec fn spec_progress(self) -> Progress {
        Progress { num: spec_min(self.total_downloaded, self.content_size), den: self.content_size }
    }

    /// Accounts for the response to one ranged request.
    ///
    /// A non-success status fails the whole download with that status
    /// code, at once and without retry. On success the plan advances by
    /// the received byte count and returns the progress fraction to
    /// report; the fraction never decreases over a run and reaches one
    /// exactly when the transfer completes.
    pub fn on_response(&mut self, status: u16, received: u64) -> (r: Result<
        Progress,
        DownloadError,
    >)
        requires
            old(self).wf(),
            !old(self).finished,
            received <= u64::MAX - old(self).total_downloaded,
        ensures
            final(self).wf(),
            (200 <= status < 300) ==> {
                &&& *final(self) == old(self).spec_on_chunk(received)
                &&& r == Ok::<Progress, DownloadError>(final(self).spec_progress())
                &&& final(self).spec_progress().wf()
            },
            !(200 <= status < 300) ==> {
                &&& r == Err::<Progress, DownloadError>(DownloadError::InvalidStatusCode(status))
                &&& *final(self) == *old(self)
            },
    {
        if !(200 <= status && status < 300) {
            return Err(DownloadError::InvalidStatusCode(status));
        }
        let total: u64 = self.total_downloaded + received;
        self.total_downloaded = total;
        if total >= self.content_size {
            self.finished = true;
        } else {
            let inc: u64 = if received <= self.chunk_size {
                received
            } else {
                self.chunk_size
            };
            self.low_bound = self.low_bound + inc;
            self.up_bound = if inc >= self.content_size - self.up_bound {
                self.content_size
            } else {
                self.up_bound + inc
            };
        }
        let num: u64 = if self.total_downloaded <= self.content_size {
            self.total_downloaded
        } else {
            self.content_size
        };
        Ok(Progress { num, den: self.content_size })
    }

    /// Whether the transfer is complete: the loop terminates once the
    /// total transferred reaches the content size.
    pub fn is_done(&self) -> (r: bool)
        ensures
            r == self.finished,
    {
        self.finished
    }
}

/// The total byte count of a sequence of received chunks.
pub open spec fn chunk_sum(chunks: Seq<u64>) -> int
    decreases chunks.len(),
{
    if chunks.len() == 0 {
        0
    } else {
        chunk_sum(chunks.drop_last()) + chunks.last()
    }
}

/// The plan a download of `size` bytes reaches after the server answered
/// with exactly the chunks of `chunks`, in order.
pub open spec fn plan_after(size: u64, chunks: Seq<u64>) -> DownloadPlan
    decreases chunks.len(),
{
    if chunks.len() == 0 {
        DownloadPlan::spec_new(size)
    } else {
        plan_after(size, chunks.drop_last()).spec_on_chunk(chunks.last())
    }
}

/// The progress fractions a download of `size` bytes reports when the
/// server answers with exactly the chunks of `chunks`: one fraction per
/// chunk, in order.
pub open spec fn run_progress(size: u64, chunks: Seq<u64>) -> Seq<Progress>
    decreases chunks.len(),
{
    if chunks.len() == 0 {
        Seq::empty()
    } else {
        run_progress(size, chunks.drop_last()).push(plan_after(size, chunks).spec_progress())
    }
}

/// A chunk sum is never negative, and a prefix of the chunks never sums
/// to more than the whole; dropping a positive chunk loses something.
pub proof fn lemma_chunk_sum_extend(chunks: Seq<u64>, n: int)
    requires
        0 <= n <= chunks.len(),
    ensures
        chunk_sum(chunks.subrange(0, n)) <= chunk_sum(chunks),
        n < chunks.len() ==> chunk_sum(chunks.subrange(0, n)) + chunks[n] <= chunk_sum(chunks),
        chunk_sum(chunks.subrange(0, n)) >= 0,
    decreases chunks.len(),
{
    if n == chunks.len() {
        assert(chunks.subrange(0, n) =~= chunks);
        if chunks.len() > 0 {
            lemma_chunk_sum_extend(chunks.drop_last(), n - 1);
            assert(chunks.drop_last().subrange(0, n - 1) =~= chunks.drop_last());
        }
    } else {
        let shorter = chunks.drop_last();
        assert(chunks.subrange(0, n) =~= shorter.subrange(0, n));
        lemma_chunk_sum_extend(shorter, n);
        if n == chunks.len() - 1 {
            assert(shorter.subrange(0, n) =~= shorter);
            assert(chunks[n] == chunks.last());
        } else {
            assert(shorter[n] == chunks[n]);
        }
    }
}

/// After any run of chunks whose sum fits the machine word, the plan's
/// transferred total is exactly that sum, and the plan stays well formed.
pub proof fn lemma_plan_after_props(size: u64, chunks: Seq<u64>)
    requires
        chunk_sum(chunks) <= u64::MAX,
    ensures
        plan_after(size, chunks).wf(),
        plan_after(size, chunks).content_size == size,
        plan_after(size, chunks).total_downloaded == chunk_sum(chunks),
    decreases chunks.len(),
{
    if chunks.len() > 0 {
        let shorter = chunks.drop_last();
        assert(shorter =~= chunks.subrange(0, chunks.len() - 1));
        lemma_chunk_sum_extend(chunks, chunks.len() - 1);
        lemma_plan_after_props(size, shorter);
    }
}

/// Progress sequence invariant: for a download of size `size` split into
/// chunks of positive size (the last possibly short), one progress
/// fraction is reported per ranged request, the fractions all have the
/// content size as denominator, they never decrease along the run, the
/// first is already positive, the last is exactly one, and the plan does
/// not finish before the final chunk.
pub proof fn lemma_download_progress_sequence(size: u64, chunks: Seq<u64>)
    requires
        size > 0,
        chunks.len() > 0,
        forall|i: int| 0 <= i < chunks.len() ==> #[trigger] chunks[i] > 0,
        chunk_sum(chunks) == size,
    ensures
        run_progress(size, chunks).len() == chunks.len(),
        forall|i: int| 0 <= i < chunks.len() ==> {
            let p = #[trigger] run_progress(size, chunks)[i];
            p.den == size && p.wf() && p.num == chunk_sum(chunks.subrange(0, i + 1))
        },
        forall|i: int, j: int| 0 <= i <= j < chunks.len()
            ==> #[trigger] run_progress(size, chunks)[i].num
                <= #[trigger] run_progress(size, chunks)[j].num,
        run_progress(size, chunks)[0].num > 0,
        run_progress(size, chunks)[chunks.len() - 1].num == size,
        forall|i: int| 0 <= i < chunks.len() - 1
            ==> !#[trigger] plan_after(size, chunks.subrange(0, i + 1)).finished,
    decreases chunks.len(),
{
    lemma_run_progress_len(size, chunks);
    assert forall|i: int| 0 <= i < chunks.len() implies {
        let p = #[trigger] run_progress(size, chunks)[i];
        p.den == size && p.wf() && p.num == chunk_sum(chunks.subrange(0, i + 1))
    } by {
        lemma_run_progress_index(size, chunks, i);
        lemma_chunk_sum_extend(chunks, i + 1);
        lemma_chunk_sum_extend(chunks.subrange(0, i + 1), i);
        lemma_plan_after_props(size, chunks.subrange(0, i + 1));
    }
    assert forall|i: int, j: int| 0 <= i <= j < chunks.len()
        implies #[trigger] run_progress(size, chunks)[i].num
            <= #[trigger] run_progress(size, chunks)[j].num by {
        lemma_chunk_sum_extend(chunks.subrange(0, j + 1), i + 1);
        assert(chunks.subrange(0, j + 1).subrange(0, i + 1) =~= chunks.subrange(0, i + 1));
    }
    assert(run_progress(size, chunks)[0].num > 0) by {
        let first = chunks.subrange(0, 1);
        assert(first.drop_last() =~= Seq::<u64>::empty());
        assert(chunk_sum(Seq::<u64>::empty()) == 0);
        assert(first.last() == chunks[0]);
        assert(chunk_sum(first) == chunks[0]);
    }
    assert(run_progress(size, chunks)[chunks.len() - 1].num == size) by {
        assert(chunks.subrange(0, chunks.len() as int) =~= chunks);
    }
    assert forall|i: int| 0 <= i < chunks.len() - 1
        implies !#[trigger] plan_after(size, chunks.subrange(0, i + 1)).finished by {
        let prefix = chunks.subrange(0, i + 1);
        lemma_chunk_sum_extend(chunks, i + 1);
        lemma_chunk_sum_extend(chunks.subrange(0, i + 2), i + 1);
        assert(chunks.subrange(0, i + 2).subrange(0, i + 1) =~= prefix);
        lemma_chunk_sum_extend(chunks, i + 2);
        assert(chunk_sum(prefix) + chunks[i + 1] <= size);
        lemma_plan_after_props(size, prefix);
    }
}

/// One progress fraction is reported per chunk.
pub proof fn lemma_run_progress_len(size: u64, chunks: Seq<u64>)
    ensures
        run_progress(size, chunks).len() == chunks.len(),
    decreases chunks.len(),
{
    if chunks.len() > 0 {
        lemma_run_progress_len(size, chunks.drop_last());
    }
}

/// The `i`-th reported fraction is the one of the plan reached after the
/// first `i + 1` chunks.
pub proof fn lemma_run_progress_index(size: u64, chunks: Seq<u64>, i: int)
    requires
        0 <= i < chunks.len(),
    ensures
        run_progress(size, chunks)[i] == plan_after(
            size,
            chunks.subrange(0, i + 1),
        ).spec_progress(),
    decreases chunks.len(),
{
    lemma_run_progress_len(size, chunks.drop_last());
    if i == chunks.len() - 1 {
        assert(chunks.subrange(0, i + 1) =~= chunks);
    } else {
        lemma_run_progress_index(size, chunks.drop_last(), i);
        assert(chunks.drop_last().subrange(0, i + 1) =~= chunks.subrange(0, i + 1));
    }
}

/// Cancellation invariant of the download stage: a cancellation flag
/// already set when the chunk loop would begin stops the loop before its
/// first ranged request; the download performs zero chunks and ends as a
/// success, not an error.
pub proof fn lemma_download_cancelled_early(size: u64)
    ensures
        DownloadPlan::spec_new(size).spec_poll(true) == DownloadPoll::Stop,
{
}

/// The request window is aligned with the transferred prefix: the next
/// ranged request begins exactly where the received data ends, and asks
/// for one chunk cap, clamped to the end of the content.
pub open spec fn window_aligned(p: DownloadPlan) -> bool {
    &&& p.total_downloaded == p.low_bound
    &&& p.up_bound == (if p.low_bound + p.chunk_size <= p.content_size {
        (p.low_bound + p.chunk_size) as u64
    } else {
        p.content_size
    })
}

/// Resumption invariant of the chunk loop: a fresh plan is aligned, and
/// while the server never delivers more than one chunk cap per request,
/// every response leaves the plan aligned again — the next request
/// begins exactly where the received data ends, so no byte is skipped
/// and none is requested twice. When the server delivers each request in
/// full, the requested ranges tile the content seamlessly: the next
/// lower bound is the previous upper bound, until the final range ends
/// at the content size and the transfer finishes.
pub proof fn lemma_window_advances_seamlessly(p: DownloadPlan, received: u64)
    requires
        p.wf(),
        !p.finished,
        window_aligned(p),
        received <= p.chunk_size,
        received <= u64::MAX - p.total_downloaded,
    ensures
        window_aligned(DownloadPlan::spec_new(p.content_size)),
        ({
            let q = p.spec_on_chunk(received);
            &&& q.total_downloaded == p.low_bound + received
            &&& !q.finished ==> window_aligned(q)
            &&& received == p.up_bound - p.low_bound ==> {
                &&& (q.finished <==> p.up_bound == p.content_size)
                &&& (!q.finished ==> q.low_bound == p.up_bound)
            }
        }),
{
}

/// Reads a download's content size out of the content-length header of a
/// size query. Fails when the header is missing, non-numeric, or does not
/// fit a 64-bit byte count.
pub fn content_size_from_header(value: Option<&str>) -> (r: Result<u64, DownloadError>)
    ensures
        value is None ==> r == Err::<u64, DownloadError>(DownloadError::InvalidContentLen),
        value matches Some(s) ==> {
            &&& (r is Ok <==> is_valid_content_len(s@))
            &&& (r matches Ok(v) ==> v == digits_val(content_len_digits(s@)))
            &&& (r is Err ==> r == Err::<u64, DownloadError>(DownloadError::InvalidContentLen))
        },
{
    match value {
        None => Err(DownloadError::InvalidContentLen),
        Some(s) => match parse_u64(s) {
            Some(v) => Ok(v),
            None => Err(DownloadError::InvalidContentLen),
        },
    }
}

} // verus!
