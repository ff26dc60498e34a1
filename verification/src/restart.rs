//! The restart request raised by the settings window and consumed by the
//! main loop, and the command line of the replacement process.

use vstd::prelude::*;

verus! {

/// Whether a restart has been requested and not yet taken.
pub struct RestartFlag {
    pub requested: bool,
}

impl RestartFlag {
    /// A flag with no pending request.
    pub fn new() -> (f: RestartFlag)
        ensures
            !f.requested,
    {
        RestartFlag { requested: false }
    }
}

/// Taking the request: (what is reported, the flag afterwards).
pub open spec fn taken(pending: bool) -> (bool, bool) {
    (pending, false)
}

/// Raises the restart request.
pub fn request_restart(flag: &mut RestartFlag)
    ensures
        final(flag).requested,
{
    flag.requested = true;
}

/// Takes the restart request: returns whether one was pending and clears it.
pub fn take_restart_request(flag: &mut RestartFlag) -> (was: bool)
    ensures
        (was, final(flag).requested) == taken(old(flag).requested),
{
    let was = flag.requested;
    flag.requested = false;
    was
}

/// A raised request is taken exactly once: the first take after a request
/// (which leaves the flag set) reports it and the next take does not.
pub proof fn lemma_request_taken_once()
    ensures
        taken(true).0,
        !taken(taken(true).1).0,
{
}

/// The arguments the replacement process is started with.
pub fn replacement_args(open_settings: bool) -> (args: Vec<String>)
    ensures
        open_settings ==> args@.len() == 1 && args@[0]@ == "--settings"@,
        !open_settings ==> args@.len() == 0,
{
    let mut args: Vec<String> = Vec::new();
    if open_settings {
        args.push(String::from_str("--settings"));
    }
    args
}

} // verus!
