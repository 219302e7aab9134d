use vstd::prelude::*;

verus! {

/// Accumulates a streamed download chunk by chunk, keeping the running byte count
/// that is reported after each chunk. It is for a transport that hands over the
/// chunks as they arrive; the smashnet transport reports its own progress instead,
/// so nothing in this crate drives it yet.
pub struct DownloadProgress {
    pub received: usize,
    pub total: Option<u64>,
    pub buffer: Vec<u8>,
}

pub struct DownloadProgressView {
    pub received: nat,
    pub total: Option<u64>,
    pub buffer: Seq<u8>,
}

impl View for DownloadProgress {
    type V = DownloadProgressView;

    open spec fn view(&self) -> DownloadProgressView {
        DownloadProgressView { received: self.received as nat, total: self.total, buffer: self.buffer@ }
    }
}

/// The state after one more chunk has arrived.
pub open spec fn progress_after(p: DownloadProgressView, chunk: Seq<u8>) -> DownloadProgressView {
    DownloadProgressView { received: p.received + chunk.len(), total: p.total, buffer: p.buffer + chunk }
}

/// The state after the chunks have arrived in order.
pub open spec fn progress_over(p: DownloadProgressView, chunks: Seq<Seq<u8>>) -> DownloadProgressView
    decreases chunks.len(),
{
    if chunks.len() == 0 {
        p
    } else {
        progress_after(progress_over(p, chunks.drop_last()), chunks.last())
    }
}

/// The running counts reported, one per chunk.
pub open spec fn progress_reports(p: DownloadProgressView, chunks: Seq<Seq<u8>>) -> Seq<nat> {
    Seq::new(chunks.len(), |i: int| progress_over(p, chunks.take(i + 1)).received)
}

/// Total length of the chunks.
pub open spec fn chunks_len(chunks: Seq<Seq<u8>>) -> nat
    decreases chunks.len(),
{
    if chunks.len() == 0 {
        0
    } else {
        chunks_len(chunks.drop_last()) + chunks.last().len()
    }
}

impl DownloadProgress {
    pub open spec fn well_formed(&self) -> bool {
        self.received == self.buffer@.len()
    }

    /// A download that has received nothing yet; `total` is the announced length, if any.
    pub fn new(total: Option<u64>) -> (r: Self)
        ensures
            r.well_formed(),
            r@ == (DownloadProgressView { received: 0, total, buffer: Seq::empty() }),
    {
        DownloadProgress { received: 0, total, buffer: Vec::new() }
    }

    /// Takes in one chunk and returns the running count to report.
    pub fn receive_chunk(&mut self, chunk: &[u8]) -> (r: usize)
        requires
            old(self).well_formed(),
            old(self).buffer@.len() + chunk@.len() <= usize::MAX,
        ensures
            final(self).well_formed(),
            final(self)@ == progress_after(old(self)@, chunk@),
            r == final(self).received,
    {
        let mut i: usize = 0;
        let ghost start = self.buffer@;
        while i < chunk.len()
            invariant
                0 <= i <= chunk@.len(),
                self.buffer@ == start + chunk@.take(i as int),
                self.received == start.len(),
                self.total == old(self).total,
                start.len() + chunk@.len() <= usize::MAX,
            decreases chunk@.len() - i,
        {
            self.buffer.push(chunk[i]);
            assert(chunk@.take(i as int + 1) == chunk@.take(i as int).push(chunk@[i as int]));
            i = i + 1;
        }
        assert(chunk@.take(chunk@.len() as int) == chunk@);
        self.received = self.received + chunk.len();
        self.received
    }

    /// The bytes received so far.
    pub fn into_bytes(self) -> (r: Vec<u8>)
        ensures
            r@ == self@.buffer,
    {
        self.buffer
    }
}

/// Fed chunk by chunk from a fresh start, the reported counts never decrease, and
/// the accumulated buffer is as long as all chunks together, which is the last count.
pub proof fn law_progress_monotone(total: Option<u64>, chunks: Seq<Seq<u8>>)
    ensures
        forall|i: int, j: int|
            0 <= i <= j < chunks.len() ==> #[trigger] progress_reports(DownloadProgressView { received: 0, total, buffer: Seq::empty() }, chunks)[i]
                <= #[trigger] progress_reports(DownloadProgressView { received: 0, total, buffer: Seq::empty() }, chunks)[j],
        progress_over(DownloadProgressView { received: 0, total, buffer: Seq::empty() }, chunks).buffer.len() == chunks_len(chunks),
        chunks.len() > 0 ==> progress_reports(DownloadProgressView { received: 0, total, buffer: Seq::empty() }, chunks).last() == chunks_len(chunks),
{
    let start = DownloadProgressView { received: 0, total, buffer: Seq::empty() };
    lemma_progress_over(start, chunks);
    assert forall|i: int, j: int| 0 <= i <= j < chunks.len() implies #[trigger] progress_reports(start, chunks)[i]
        <= #[trigger] progress_reports(start, chunks)[j] by {
        lemma_progress_prefix(start, chunks.take(j + 1), i + 1);
        assert(chunks.take(j + 1).take(i + 1) == chunks.take(i + 1));
    }
    if chunks.len() > 0 {
        assert(chunks.take(chunks.len() as int) == chunks);
    }
}

proof fn lemma_progress_over(p: DownloadProgressView, chunks: Seq<Seq<u8>>)
    requires
        p.received == p.buffer.len(),
    ensures
        progress_over(p, chunks).received == p.received + chunks_len(chunks),
        progress_over(p, chunks).buffer.len() == p.buffer.len() + chunks_len(chunks),
    decreases chunks.len(),
{
    if chunks.len() > 0 {
        lemma_progress_over(p, chunks.drop_last());
    }
}

proof fn lemma_progress_prefix(p: DownloadProgressView, chunks: Seq<Seq<u8>>, n: int)
    requires
        0 <= n <= chunks.len(),
    ensures
        progress_over(p, chunks.take(n)).received <= progress_over(p, chunks).received,
    decreases chunks.len(),
{
    if n < chunks.len() {
        lemma_progress_prefix(p, chunks.drop_last(), n);
        assert(chunks.drop_last().take(n) == chunks.take(n));
    } else {
        assert(chunks.take(n) == chunks);
    }
}

} // verus!
