use vstd::prelude::*;
use std::sync::atomic::AtomicUsize;
use std::sync::atomic::Ordering;
use crate::handlers::notice;
use crate::handlers::service_unavailable;
use crate::response::HTTPStatus;

verus! {

/// What becomes of a newly accepted connection.
#[derive(Debug)]
pub enum Admission {
    /// The connection gets a handler and counts as active.
    Admitted,
    /// The server is full: the peer is sent this response, the sending side is shut
    /// down so that the peer can still read it, and the connection is closed. It gets no
    /// handler and is not counted.
    Refused { response: Vec<u8> },
}

/// Whether a new connection is admitted while `active` connections are open under a
/// ceiling of `ceiling`.
pub open spec fn admits(active: nat, ceiling: nat) -> bool {
    active < ceiling
}

/// The response that a refused connection is sent.
pub open spec fn refusal() -> Seq<u8> {
    notice(HTTPStatus::ServiceUnavailable, "503 Service Unavailable")
}

/// Decides on a new connection from the number of active connections read a moment ago.
pub fn decide(active: usize, ceiling: usize) -> (admission: Admission)
    ensures
        admits(active as nat, ceiling as nat) <==> admission is Admitted,
        admission matches Admission::Refused { response } ==> response@ == refusal(),
{
    if active >= ceiling {
        Admission::Refused { response: service_unavailable() }
    } else {
        Admission::Admitted
    }
}

/// Reads the shared count of active connections, decides on a new connection, and counts
/// it in if it is admitted. The read and the increment are two steps, and handlers count
/// themselves out in between as they please, so nothing is claimed of the count here.
pub fn try_admit(active: &AtomicUsize, ceiling: usize) -> (admission: Admission)
    ensures
        ceiling == 0 ==> admission is Refused,
        admission matches Admission::Refused { response } ==> response@ == refusal(),
{
    let count: usize = active.load(Ordering::SeqCst);
    let admission = decide(count, ceiling);
    match admission {
        Admission::Admitted => {
            active.fetch_add(1, Ordering::SeqCst);
        },
        Admission::Refused { .. } => {},
    }
    admission
}

/// Counts one admitted connection out again. Its handler calls this once, when it closes.
pub fn release(active: &AtomicUsize) {
    active.fetch_sub(1, Ordering::SeqCst);
}

/// The number of open connections after `attempts` connection attempts on a server that
/// started empty, when no connection closes in between.
pub open spec fn open_after(attempts: nat, ceiling: nat) -> nat
    decreases attempts,
{
    if attempts == 0 {
        0
    } else {
        let before = open_after((attempts - 1) as nat, ceiling);
        if admits(before, ceiling) {
            before + 1
        } else {
            before
        }
    }
}

/// Under a ceiling of N, each of the first N attempts is admitted, so that N connections
/// are open; every further attempt is refused while they stay open; and as soon as one of
/// them closes, the next attempt is admitted again.
pub proof fn lemma_ceiling(ceiling: nat, attempts: nat)
    ensures
        attempts < ceiling ==> open_after(attempts, ceiling) == attempts && admits(
            open_after(attempts, ceiling),
            ceiling,
        ),
        attempts >= ceiling ==> open_after(attempts, ceiling) == ceiling && !admits(
            open_after(attempts, ceiling),
            ceiling,
        ),
        attempts >= ceiling && ceiling > 0 ==> admits(
            (open_after(attempts, ceiling) - 1) as nat,
            ceiling,
        ),
    decreases attempts,
{
    if attempts > 0 {
        lemma_ceiling(ceiling, (attempts - 1) as nat);
    }
}

} // verus!
