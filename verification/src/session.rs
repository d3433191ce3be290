//! Running the phases of a speed test in order.
//!
//! The waiting happens in the program; which phase comes next, and what a
//! phase's failure costs, is decided here.

use vstd::prelude::*;

use crate::endpoint::ClientInfo;
use crate::error::Error;
use crate::probe::transfer::Progress;

verus! {

/// How much of a test to run.
#[derive(Clone, Copy, Debug, Default, PartialEq, Eq, Structural)]
pub enum Scope {
    /// Measure latency, download and upload.
    #[default]
    Full,
    /// Skip the upload phase.
    DownloadOnly,
}

/// Something worth showing while a run is in progress.
#[derive(Clone, Copy, Debug)]
pub enum Event {
    /// Contacting the endpoint and timing round trips.
    Probing,
    /// A transfer phase produced a sample.
    Transferring(Progress),
}

/// A phase of a run.
#[derive(Clone, Copy, Debug, PartialEq, Eq, Structural)]
pub enum Step {
    /// Asking the server what it sees of this connection.
    ClientInfo,
    /// Timing round trips.
    Latency,
    /// Measuring the download.
    Download,
    /// Measuring the upload.
    Upload,
    /// Nothing left to measure: the report can be assembled.
    Finished,
}

/// The phase that follows `done` in a run of `scope`.
pub open spec fn following(scope: Scope, done: Step) -> Step {
    match done {
        Step::ClientInfo => Step::Latency,
        Step::Latency => Step::Download,
        Step::Download => match scope {
            Scope::Full => Step::Upload,
            Scope::DownloadOnly => Step::Finished,
        },
        Step::Upload => Step::Finished,
        Step::Finished => Step::Finished,
    }
}

/// The phases a run of `scope` goes through, in order.
pub open spec fn steps(scope: Scope) -> Seq<Step> {
    match scope {
        Scope::Full => seq![Step::ClientInfo, Step::Latency, Step::Download, Step::Upload],
        Scope::DownloadOnly => seq![Step::ClientInfo, Step::Latency, Step::Download],
    }
}

/// Returns the phase a run begins with.
pub fn first_step() -> (step: Step)
    ensures
        step == Step::ClientInfo,
{
    Step::ClientInfo
}

/// Returns the phase that follows `done` in a run of `scope`.
pub fn next_step(scope: Scope, done: Step) -> (step: Step)
    ensures
        step == following(scope, done),
{
    match done {
        Step::ClientInfo => Step::Latency,
        Step::Latency => Step::Download,
        Step::Download => match scope {
            Scope::Full => Step::Upload,
            Scope::DownloadOnly => Step::Finished,
        },
        Step::Upload => Step::Finished,
        Step::Finished => Step::Finished,
    }
}

/// A run walks its phases in order and then finishes: the upload is
/// measured exactly when the scope is the full test.
pub proof fn lemma_run_order(scope: Scope)
    ensures
        steps(scope)[0] == Step::ClientInfo,
        forall|i: int|
            0 <= i < steps(scope).len() - 1 ==> following(scope, #[trigger] steps(scope)[i])
                == steps(scope)[i + 1],
        following(scope, steps(scope).last()) == Step::Finished,
        steps(scope).contains(Step::Upload) <==> scope == Scope::Full,
{
    if scope == Scope::DownloadOnly {
        assert(!steps(scope).contains(Step::Upload)) by {
            if steps(scope).contains(Step::Upload) {
                let i = choose|i: int| 0 <= i < steps(scope).len() && steps(scope)[i] == Step::Upload;
                assert(i == 0 || i == 1 || i == 2);
            }
        }
    } else {
        assert(steps(scope)[3] == Step::Upload);
    }
}

/// Keeps what the server said about the connection, or nothing.
///
/// Connection metadata only decorates the verbose output, so a server that
/// declines to describe itself must not cost the user their measurement.
pub fn keep_client_info(reply: Result<ClientInfo, Error>) -> (info: ClientInfo)
    ensures
        match reply {
            Ok(given) => info == given,
            Err(_) => info.fields() == (None::<Seq<char>>, None::<Seq<char>>, None::<Seq<char>>),
        },
{
    match reply {
        Ok(given) => given,
        Err(_) => ClientInfo::unknown(),
    }
}

} // verus!
