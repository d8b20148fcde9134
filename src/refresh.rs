//! The decisions of the site's redeploy script. The script either stops the
//! server it launched last time, or pulls the site, rebuilds it and launches
//! the server, recording its process id. The process and file work is done by
//! the caller, which hands back what came of each step.

use vstd::prelude::*;

verus! {

/// What became of reading the record of the last launch.
pub enum LastInfo {
    /// The record file could not be opened: nothing was launched before.
    Missing,
    /// The file was opened but could not be read as text.
    Unreadable,
    /// The text does not hold a process id.
    Invalid,
    /// The process id of the server launched last time.
    Pid(u32),
}

/// The next thing the script does.
#[derive(Clone, Copy, Debug, PartialEq, Eq, Structural)]
pub enum RefreshStep {
    /// Kill the process with this id.
    Kill(u32),
    /// Pull the site's sources.
    Pull,
    /// Build the static site.
    Build,
    /// Launch the server.
    Launch,
    /// Record the id of the launched server.
    Record(u32),
    /// Nothing more to do.
    Finish,
}

/// The first step, from what the record of the last launch held.
pub open spec fn first_step_of(info: LastInfo) -> RefreshStep {
    match info {
        LastInfo::Missing => RefreshStep::Pull,
        LastInfo::Pid(pid) => RefreshStep::Kill(pid),
        _ => RefreshStep::Finish,
    }
}

/// The step after `step`; `launched` is the id of the server when `step`
/// launched one, and is not read otherwise. A pull or a build goes on
/// whether or not it succeeded.
pub open spec fn next_step_of(step: RefreshStep, launched: Option<u32>) -> RefreshStep {
    match step {
        RefreshStep::Pull => RefreshStep::Build,
        RefreshStep::Build => RefreshStep::Launch,
        RefreshStep::Launch => match launched {
            Some(pid) => RefreshStep::Record(pid),
            None => RefreshStep::Finish,
        },
        _ => RefreshStep::Finish,
    }
}

/// The first step of the script.
pub fn first_step(info: LastInfo) -> (r: RefreshStep)
    ensures
        r == first_step_of(info),
{
    match info {
        LastInfo::Missing => RefreshStep::Pull,
        LastInfo::Pid(pid) => RefreshStep::Kill(pid),
        LastInfo::Unreadable => RefreshStep::Finish,
        LastInfo::Invalid => RefreshStep::Finish,
    }
}

/// The step that follows `step`.
pub fn next_step(step: RefreshStep, launched: Option<u32>) -> (r: RefreshStep)
    ensures
        r == next_step_of(step, launched),
{
    match step {
        RefreshStep::Pull => RefreshStep::Build,
        RefreshStep::Build => RefreshStep::Launch,
        RefreshStep::Launch => match launched {
            Some(pid) => RefreshStep::Record(pid),
            None => RefreshStep::Finish,
        },
        _ => RefreshStep::Finish,
    }
}

} // verus!
