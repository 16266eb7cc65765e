use vstd::prelude::*;

verus! {

/// Largest number of bytes a request may accumulate to before it is refused.
pub const MAX_REQUEST_SIZE: usize = 8196;

/// Whether the four bytes CR LF CR LF stand in `buffer` at offset `at`.
pub open spec fn terminator_at(buffer: Seq<u8>, at: int) -> bool {
    &&& 0 <= at
    &&& at + 4 <= buffer.len()
    &&& buffer[at] == 13
    &&& buffer[at + 1] == 10
    &&& buffer[at + 2] == 13
    &&& buffer[at + 3] == 10
}

/// Whether the header terminator occurs anywhere in `buffer`.
pub open spec fn has_terminator(buffer: Seq<u8>) -> bool {
    exists|at: int| terminator_at(buffer, at)
}

/// What the bytes accumulated so far amount to.
#[derive(Copy, Clone, Debug, PartialEq, Eq)]
pub enum FrameStatus {
    /// No terminator yet, and still under the size limit.
    Incomplete,
    /// The header block is complete and under the size limit.
    Complete,
    /// The size limit is reached, whether or not a terminator is present.
    TooLarge,
}

/// The status of `buffer` under a limit of `limit` bytes. The size is judged first:
/// a buffer that has reached the limit is too large even if it holds a terminator.
pub open spec fn frame_status(buffer: Seq<u8>, limit: nat) -> FrameStatus {
    if buffer.len() >= limit {
        FrameStatus::TooLarge
    } else if has_terminator(buffer) {
        FrameStatus::Complete
    } else {
        FrameStatus::Incomplete
    }
}

/// Searches the whole buffer for the header terminator.
pub fn contains_terminator(buffer: &[u8]) -> (found: bool)
    ensures
        found == has_terminator(buffer@),
{
    let n: usize = buffer.len();
    if n < 4 {
        assert(forall|at: int| !terminator_at(buffer@, at));
        return false;
    }
    let mut i: usize = 0;
    while i < n - 3
        invariant
            n == buffer@.len(),
            n >= 4,
            i <= n - 3,
            forall|at: int| 0 <= at < i ==> !terminator_at(buffer@, at),
        decreases n - i,
    {
        if buffer[i] == 13 && buffer[i + 1] == 10 && buffer[i + 2] == 13 && buffer[i + 3] == 10 {
            assert(terminator_at(buffer@, i as int));
            return true;
        }
        i = i + 1;
    }
    assert(forall|at: int| !terminator_at(buffer@, at));
    false
}

/// Accumulates the bytes of one request until its header block is complete or it has
/// grown to the size limit.
pub struct RequestFramer {
    buffer: Vec<u8>,
    limit: usize,
}

impl RequestFramer {
    /// The bytes accumulated so far.
    pub closed spec fn bytes(&self) -> Seq<u8> {
        self.buffer@
    }

    /// The size limit this framer was made with.
    pub closed spec fn spec_limit(&self) -> usize {
        self.limit
    }

    /// The status of what has been accumulated.
    pub open spec fn spec_status(&self) -> FrameStatus {
        frame_status(self.bytes(), self.spec_limit() as nat)
    }

    /// An empty framer with the given size limit.
    pub fn new(limit: usize) -> (framer: RequestFramer)
        ensures
            framer.bytes() == Seq::<u8>::empty(),
            framer.spec_limit() == limit,
    {
        RequestFramer { buffer: Vec::new(), limit }
    }

    /// The size limit.
    pub fn limit(&self) -> (limit: usize)
        ensures
            limit == self.spec_limit(),
    {
        self.limit
    }

    /// The accumulated bytes.
    pub fn buffer(&self) -> (bytes: &[u8])
        ensures
            bytes@ == self.bytes(),
    {
        self.buffer.as_slice()
    }

    /// Forgets what was accumulated; the limit stays.
    pub fn reset(&mut self)
        ensures
            final(self).bytes() == Seq::<u8>::empty(),
            final(self).spec_limit() == old(self).spec_limit(),
    {
        self.buffer.clear();
    }

    /// The status of what has been accumulated.
    pub fn status(&self) -> (status: FrameStatus)
        ensures
            status == self.spec_status(),
    {
        if self.buffer.len() >= self.limit {
            FrameStatus::TooLarge
        } else if contains_terminator(self.buffer.as_slice()) {
            FrameStatus::Complete
        } else {
            FrameStatus::Incomplete
        }
    }

    /// Appends one chunk read from the peer and reports the status of the whole.
    pub fn push(&mut self, chunk: &[u8]) -> (status: FrameStatus)
        ensures
            final(self).bytes() == old(self).bytes() + chunk@,
            final(self).spec_limit() == old(self).spec_limit(),
            status == final(self).spec_status(),
    {
        self.buffer.extend_from_slice(chunk);
        self.status()
    }
}

/// A buffer that has grown to exactly the limit is too large, terminator or not, and one
/// that is a byte short of the limit and holds the terminator is complete.
pub proof fn lemma_size_boundary(buffer: Seq<u8>, limit: nat)
    ensures
        buffer.len() == limit ==> frame_status(buffer, limit) == FrameStatus::TooLarge,
        buffer.len() + 1 == limit && has_terminator(buffer) ==> frame_status(buffer, limit)
            == FrameStatus::Complete,
{
}

/// The terminator is found wherever it lies: bytes before and after it do not hide it.
pub proof fn lemma_terminator_anywhere(before: Seq<u8>, after: Seq<u8>)
    ensures
        has_terminator(before + seq![13u8, 10u8, 13u8, 10u8] + after),
{
    let whole = before + seq![13u8, 10u8, 13u8, 10u8] + after;
    assert(terminator_at(whole, before.len() as int));
}

/// Once present, the terminator stays present as more bytes arrive.
pub proof fn lemma_terminator_stays(buffer: Seq<u8>, more: Seq<u8>)
    requires
        has_terminator(buffer),
    ensures
        has_terminator(buffer + more),
{
    let at = choose|at: int| terminator_at(buffer, at);
    assert(terminator_at(buffer + more, at));
}

} // verus!
