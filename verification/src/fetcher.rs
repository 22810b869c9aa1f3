//! The fetcher: decides whether the external version-control client
//! must run for a destination, and classifies its outcome. The client
//! itself runs outside this library; a successful clone creates the
//! destination directory, which is what makes a repeated fetch a no-op.

use vstd::prelude::*;

verus! {

/// Why a fetch failed: the external client could not be launched at
/// all, or it ran and rejected the clone with a non-zero exit status.
pub enum FetchError {
    LaunchFailed,
    CloneRejected,
}

/// What became of one attempt to run the external client.
pub enum CloneOutcome {
    LaunchFailed,
    Completed { success: bool },
}

/// The fetcher's model of a destination: whether anything already
/// exists at the destination path.
pub struct FetchState {
    pub dest_exists: bool,
}

/// The client runs only when nothing exists at the destination yet.
pub open spec fn spec_needs_clone(st: FetchState) -> bool {
    !st.dest_exists
}

/// The result one fetch reports: an existing destination is success
/// without consulting the client; otherwise the client's outcome
/// decides, each failure kept distinct.
pub open spec fn spec_fetch_result(st: FetchState, outcome: CloneOutcome) -> Result<
    (),
    FetchError,
> {
    if st.dest_exists {
        Ok(())
    } else {
        match outcome {
            CloneOutcome::LaunchFailed => Err(FetchError::LaunchFailed),
            CloneOutcome::Completed { success } => if success {
                Ok(())
            } else {
                Err(FetchError::CloneRejected)
            },
        }
    }
}

/// The destination after one fetch: a clone that completed successfully
/// has created it; everything else leaves it as it was.
pub open spec fn spec_fetch_next(st: FetchState, outcome: CloneOutcome) -> FetchState {
    if st.dest_exists {
        st
    } else {
        match outcome {
            CloneOutcome::Completed { success } => if success {
                FetchState { dest_exists: true }
            } else {
                st
            },
            CloneOutcome::LaunchFailed => st,
        }
    }
}

/// The destination path `themes\<name>` for a theme's sources.
pub fn theme_dest_path(name: &str) -> (p: String)
    ensures
        p@ == "themes\\"@ + name@,
{
    let mut p = "themes\\".to_owned();
    p.append(name);
    p
}

/// Whether the external client must be invoked for this destination.
pub fn needs_clone(st: &FetchState) -> (r: bool)
    ensures
        r == spec_needs_clone(*st),
{
    !st.dest_exists
}

/// One fetch over the modeled destination: the new destination state
/// and the reported result. The `outcome` argument is consulted only
/// when the client had to run.
pub fn fetch_step(st: FetchState, outcome: CloneOutcome) -> (r: (FetchState, Result<
    (),
    FetchError,
>))
    ensures
        r.0 == spec_fetch_next(st, outcome),
        r.1 == spec_fetch_result(st, outcome),
{
    if st.dest_exists {
        (st, Ok(()))
    } else {
        match outcome {
            CloneOutcome::LaunchFailed => (st, Err(FetchError::LaunchFailed)),
            CloneOutcome::Completed { success } => {
                if success {
                    (FetchState { dest_exists: true }, Ok(()))
                } else {
                    (st, Err(FetchError::CloneRejected))
                }
            },
        }
    }
}

/// Fetching is idempotent: once a fetch has reported success, the
/// destination exists, so any later fetch of the same destination runs
/// no clone and reports success, whatever the client would have said.
pub proof fn lemma_fetch_idempotent(st: FetchState, outcome: CloneOutcome)
    requires
        spec_fetch_result(st, outcome) is Ok,
    ensures
        !spec_needs_clone(spec_fetch_next(st, outcome)),
        forall|later: CloneOutcome|
            spec_fetch_result(spec_fetch_next(st, outcome), later) == Result::<
                (),
                FetchError,
            >::Ok(()),
        forall|later: CloneOutcome|
            spec_fetch_next(spec_fetch_next(st, outcome), later) == spec_fetch_next(st, outcome),
{
}

} // verus!
