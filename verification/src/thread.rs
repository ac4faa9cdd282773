//! What the steps of an entry and of an exit do to the thread that performs
//! them, and what follows: a thread that leaves is back where the context
//! was made, and a context that needs no change of namespace moves nothing.

use vstd::prelude::*;
use crate::error::ErrorView;
use crate::namespace::{
    root_dir,
    spec_advance,
    spec_enter,
    spec_leave,
    spec_mount_kind,
    wf,
    NsView,
    Outcome,
    ProgressView,
    Step,
};

verus! {

/// What a thread carries with it and no value owns: the mount namespace
/// through which it sees files, and its working directory.
pub struct Thread {
    pub mntns: u64,
    pub cwd: Seq<u8>,
}

/// Where the thread stood when the context `v` was made.
pub open spec fn home(v: NsView) -> Thread {
    Thread { mntns: v.oldns, cwd: v.oldcwd }
}

/// The thread `t` after the system has answered `step` with `outcome`.
///
/// A request that failed changes nothing. A change of namespace leaves the
/// thread in the root directory of the namespace it lands in; the file kept
/// for the target leads to the target's namespace, the handle kept for the
/// caller to the caller's.
pub open spec fn effect(v: NsView, step: Step, outcome: Outcome, t: Thread) -> Thread {
    if outcome == Outcome::Done {
        match step {
            Step::Attach { path, nstype } => Thread { mntns: v.newns, cwd: root_dir() },
            Step::Reattach { nstype } => Thread { mntns: v.oldns, cwd: root_dir() },
            Step::Chdir { path } => Thread { mntns: t.mntns, cwd: path },
        }
    } else {
        t
    }
}

/// How many steps may still follow `p`.
pub open spec fn steps_left(p: ProgressView) -> nat {
    match p {
        ProgressView::Finished(_) => 0,
        ProgressView::Act(Step::Reattach { nstype }) => 2,
        ProgressView::Act(_) => 1,
    }
}

/// The thread `t` after `p` has been carried through to its end, every
/// request having been granted.
pub open spec fn carried(v: NsView, p: ProgressView, t: Thread) -> Thread
    decreases steps_left(p),
{
    match p {
        ProgressView::Finished(_) => t,
        ProgressView::Act(step) => carried(
            v,
            spec_advance(v, step, Outcome::Done),
            effect(v, step, Outcome::Done, t),
        ),
    }
}

/// How `p` ends when every request is granted.
pub open spec fn ending(v: NsView, p: ProgressView) -> Result<(), ErrorView>
    decreases steps_left(p),
{
    match p {
        ProgressView::Finished(end) => end,
        ProgressView::Act(step) => ending(v, spec_advance(v, step, Outcome::Done)),
    }
}

/// One of the two things a caller does with a context.
pub enum Call {
    Enter,
    Leave,
}

/// The thread `t` after the calls `calls`, in their order, each carried
/// through with every request granted.
pub open spec fn after(v: NsView, calls: Seq<Call>, t: Thread) -> Thread
    decreases calls.len(),
{
    if calls.len() == 0 {
        t
    } else {
        let first = match calls[0] {
            Call::Enter => spec_enter(v),
            Call::Leave => spec_leave(v),
        };
        after(v, calls.skip(1), carried(v, first, t))
    }
}

/// An entry that is granted puts the thread into the target's namespace,
/// which is not the one in which the context was made.
pub proof fn entry_reaches_target(v: NsView, t: Thread)
    requires
        wf(v),
        v.need_setns,
    ensures
        carried(v, spec_enter(v), t).mntns == v.newns,
        t.mntns == v.oldns ==> carried(v, spec_enter(v), t).mntns != t.mntns,
        ending(v, spec_enter(v)) == Ok::<(), ErrorView>(()),
{
    reveal_with_fuel(carried, 3);
    reveal_with_fuel(ending, 3);
}

/// An entry that the system refuses leaves the thread where it was and is
/// reported with the system's error number; one whose file cannot be opened
/// is reported with that file.
pub proof fn refused_entry_changes_nothing(v: NsView, t: Thread, outcome: Outcome)
    requires
        wf(v),
        v.need_setns,
        outcome != Outcome::Done,
    ensures
        spec_enter(v) matches ProgressView::Act(step) && effect(v, step, outcome, t) == t && (
        spec_advance(v, step, outcome) matches ProgressView::Finished(Err(e)) && match outcome {
            Outcome::Refused { errno } => e == (ErrorView::Os { errno }),
            _ => e == (ErrorView::Io { path: v.mntns_path->0 }),
        }),
{
}

/// An exit that is granted puts the thread back into the namespace and the
/// directory in which the context was made, wherever it has been since.
pub proof fn exit_leads_home(v: NsView, t: Thread)
    requires
        wf(v),
        v.need_setns,
    ensures
        carried(v, spec_leave(v), t) == home(v),
        ending(v, spec_leave(v)) == Ok::<(), ErrorView>(()),
{
    reveal_with_fuel(carried, 3);
    reveal_with_fuel(ending, 3);
}

/// On the way back the namespace comes before the directory: the first
/// request of an exit is the return to the caller's namespace, the directory
/// is asked for only once that has been granted, and it is the last.
pub proof fn namespace_before_directory(v: NsView, outcome: Outcome)
    requires
        wf(v),
        v.need_setns,
    ensures
        spec_leave(v) matches ProgressView::Act(first) && first is Reattach && match spec_advance(
            v,
            first,
            outcome,
        ) {
            ProgressView::Act(second) => outcome == Outcome::Done && second == (Step::Chdir {
                path: v.oldcwd,
            }) && spec_advance(v, second, Outcome::Done) is Finished,
            ProgressView::Finished(end) => outcome != Outcome::Done && end == Err::<
                (),
                ErrorView,
            >(ErrorView::FatalRestore),
        },
{
}

/// A thread that cannot be sent to its directory is in its own namespace
/// all the same, and the failure is one to report.
pub proof fn directory_failure_is_recoverable(v: NsView, t: Thread, outcome: Outcome)
    requires
        wf(v),
        v.need_setns,
        outcome != Outcome::Done,
    ensures
        ({
            let back = effect(v, Step::Reattach { nstype: spec_mount_kind() }, Outcome::Done, t);
            let chdir = Step::Chdir { path: v.oldcwd };
            &&& effect(v, chdir, outcome, back).mntns == v.oldns
            &&& spec_advance(v, chdir, outcome) == ProgressView::Finished(
                Err(ErrorView::Io { path: v.oldcwd }),
            )
        }),
{
}

/// Entering and leaving at once changes nothing: a thread that stands where
/// the context was made is, after an entry and an exit that were granted,
/// in the same namespace and the same directory.
pub proof fn enter_then_leave_restores(v: NsView, t: Thread)
    requires
        wf(v),
        v.need_setns,
        t == home(v),
    ensures
        after(v, seq![Call::Enter, Call::Leave], t) == t,
{
    let calls = seq![Call::Enter, Call::Leave];
    let inside = carried(v, spec_enter(v), t);
    exit_leads_home(v, inside);
    assert(calls.skip(1)[0] == Call::Leave);
    assert(calls.skip(1).skip(1).len() == 0);
    reveal_with_fuel(after, 3);
}

/// Where no change of namespace is needed, entering and leaving ask nothing
/// of the system, and no number of them in any order moves the thread.
pub proof fn inert_calls_change_nothing(v: NsView, calls: Seq<Call>, t: Thread)
    requires
        wf(v),
        !v.need_setns,
    ensures
        spec_enter(v) == ProgressView::Finished(Ok(())),
        spec_leave(v) == ProgressView::Finished(Ok(())),
        after(v, calls, t) == t,
    decreases calls.len(),
{
    if calls.len() > 0 {
        inert_calls_change_nothing(v, calls.skip(1), t);
    }
}

} // verus!
