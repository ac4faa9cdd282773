//! The caller and one target process's mount namespace: whether the caller
//! has to change namespaces to see the target's files, what it has to ask of
//! the system to get there and back, and what each answer means.
//!
//! A namespace and a working directory belong to the thread, not to any
//! value here. One thread uses one context at a time, enters before it
//! leaves, and performs each step on the thread on which it asked for it.

use vstd::prelude::*;
use crate::error::{Error, ErrorView};
use crate::pid::Pid;
use crate::status::{get_nspid, nspid};

verus! {

/// The name of the directory in which every process has its own.
pub open spec fn proc_dir() -> Seq<u8> {
    seq![0x2fu8, 0x70u8, 0x72u8, 0x6fu8, 0x63u8, 0x2fu8]
}

/// Where, in a process's directory, its mount namespace is found.
pub open spec fn mntns_file() -> Seq<u8> {
    seq![0x2fu8, 0x6eu8, 0x73u8, 0x2fu8, 0x6du8, 0x6eu8, 0x74u8]
}

/// Where, in a process's directory, its status record is found.
pub open spec fn status_file() -> Seq<u8> {
    seq![0x2fu8, 0x73u8, 0x74u8, 0x61u8, 0x74u8, 0x75u8, 0x73u8]
}

/// The file that stands for the mount namespace of `pid`.
pub open spec fn spec_mntns_path(pid: Pid) -> Seq<u8> {
    proc_dir() + pid.spec_name() + mntns_file()
}

/// The file that holds the status record of `pid`.
pub open spec fn spec_status_path(pid: Pid) -> Seq<u8> {
    proc_dir() + pid.spec_name() + status_file()
}

/// The root directory, where a thread stands after it changed namespaces.
pub open spec fn root_dir() -> Seq<u8> {
    seq![0x2fu8]
}

/// The kind of namespace that this library enters.
pub open spec fn spec_mount_kind() -> i32 {
    0x0002_0000
}

/// `libc::CLONE_NEWNS`, the flag by which `setns` is told that the handle it
/// gets must be a mount namespace. The contract gives the value that the
/// constant has on Linux.
#[verifier::external_body]
fn mount_kind() -> (r: i32)
    ensures
        r == spec_mount_kind(),
{
    libc::CLONE_NEWNS
}

fn push_proc_dir(out: &mut Vec<u8>)
    ensures
        final(out)@ == old(out)@ + proc_dir(),
{
    out.push(0x2f);
    out.push(0x70);
    out.push(0x72);
    out.push(0x6f);
    out.push(0x63);
    out.push(0x2f);
    assert(out@ == old(out)@ + proc_dir());
}

/// The file that stands for the mount namespace of `pid`:
/// `/proc/<pid>/ns/mnt`.
pub fn mntns_path(pid: Pid) -> (r: Vec<u8>)
    ensures
        r@ == spec_mntns_path(pid),
{
    let mut out: Vec<u8> = Vec::new();
    push_proc_dir(&mut out);
    pid.write_name(&mut out);
    let ghost head = out@;
    out.push(0x2f);
    out.push(0x6e);
    out.push(0x73);
    out.push(0x2f);
    out.push(0x6d);
    out.push(0x6e);
    out.push(0x74);
    assert(out@ == head + mntns_file());
    assert(out@ == spec_mntns_path(pid));
    out
}

/// The file that holds the status record of `pid`: `/proc/<pid>/status`.
pub fn status_path(pid: Pid) -> (r: Vec<u8>)
    ensures
        r@ == spec_status_path(pid),
{
    let mut out: Vec<u8> = Vec::new();
    push_proc_dir(&mut out);
    pid.write_name(&mut out);
    let ghost head = out@;
    out.push(0x2f);
    out.push(0x73);
    out.push(0x74);
    out.push(0x61);
    out.push(0x74);
    out.push(0x75);
    out.push(0x73);
    assert(out@ == head + status_file());
    assert(out@ == spec_status_path(pid));
    out
}

/// One request to the system, to be performed on the calling thread.
#[derive(Debug, PartialEq, Eq)]
pub enum Action {
    /// Open the namespace at `path` and move the thread into it, with
    /// `nstype` as the kind that `setns` is to insist on.
    Attach { path: Vec<u8>, nstype: i32 },
    /// Move the thread back into the namespace it came from, through the
    /// handle that was opened when the context was made.
    Reattach { nstype: i32 },
    /// Make `path` the working directory.
    Chdir { path: Vec<u8> },
}

/// An [`Action`] as contracts see it.
pub enum Step {
    Attach { path: Seq<u8>, nstype: i32 },
    Reattach { nstype: i32 },
    Chdir { path: Seq<u8> },
}

impl View for Action {
    type V = Step;

    open spec fn view(&self) -> Step {
        match *self {
            Action::Attach { path, nstype } => Step::Attach { path: path@, nstype },
            Action::Reattach { nstype } => Step::Reattach { nstype },
            Action::Chdir { path } => Step::Chdir { path: path@ },
        }
    }
}

/// How the system answered one request.
#[derive(Clone, Copy, Debug, PartialEq, Eq, Structural)]
pub enum Outcome {
    /// It did what was asked.
    Done,
    /// The file to work on could not be opened.
    NotOpened,
    /// The call itself failed, with this error number.
    Refused { errno: i32 },
}

/// Where an entry or an exit stands.
#[derive(Debug, PartialEq, Eq)]
pub enum Progress {
    /// This is to be done next, and its outcome handed to
    /// [`NsInfo::advance`].
    Act(Action),
    /// Nothing is left to do, and this is how it ended.
    Finished(Result<(), Error>),
}

/// A [`Progress`] as contracts see it.
pub enum ProgressView {
    Act(Step),
    Finished(Result<(), ErrorView>),
}

impl View for Progress {
    type V = ProgressView;

    open spec fn view(&self) -> ProgressView {
        match *self {
            Progress::Act(action) => ProgressView::Act(action@),
            Progress::Finished(Ok(())) => ProgressView::Finished(Ok(())),
            Progress::Finished(Err(e)) => ProgressView::Finished(Err(e@)),
        }
    }
}

/// What a context knows.
pub struct NsView {
    /// The target's id as the caller sees it.
    pub tgid: Pid,
    /// The target's id inside its own namespace.
    pub nstgid: Pid,
    /// Whether the caller has to change namespaces.
    pub need_setns: bool,
    /// The file that stands for the target's namespace.
    pub mntns_path: Option<Seq<u8>>,
    /// The identity of the caller's namespace when the context was made.
    pub oldns: u64,
    /// The identity of the target's namespace when the context was made.
    pub newns: u64,
    /// The caller's working directory when the context was made.
    pub oldcwd: Seq<u8>,
}

/// What holds of every context: the caller has to change namespaces exactly
/// where the two identities differed, and the target's namespace is kept
/// exactly then.
pub open spec fn wf(v: NsView) -> bool {
    &&& v.need_setns == (v.oldns != v.newns)
    &&& (v.mntns_path is Some) == v.need_setns
}

/// The first step of an entry.
pub open spec fn spec_enter(v: NsView) -> ProgressView {
    if v.need_setns {
        ProgressView::Act(Step::Attach { path: v.mntns_path->0, nstype: spec_mount_kind() })
    } else {
        ProgressView::Finished(Ok(()))
    }
}

/// The first step of an exit.
pub open spec fn spec_leave(v: NsView) -> ProgressView {
    if v.need_setns {
        ProgressView::Act(Step::Reattach { nstype: spec_mount_kind() })
    } else {
        ProgressView::Finished(Ok(()))
    }
}

/// What follows `done` once the system has answered it with `outcome`.
///
/// A failed entry is reported and changes nothing. On the way back the
/// namespace comes first, since changing it resets the working directory:
/// only when the thread is in its own namespace again is it sent to its
/// directory. A thread that cannot go back is lost; one that is back but
/// not in its directory is reported with that directory.
pub open spec fn spec_advance(v: NsView, done: Step, outcome: Outcome) -> ProgressView {
    match done {
        Step::Attach { path, nstype } => ProgressView::Finished(
            match outcome {
                Outcome::Done => Ok(()),
                Outcome::NotOpened => Err(ErrorView::Io { path }),
                Outcome::Refused { errno } => Err(ErrorView::Os { errno }),
            },
        ),
        Step::Reattach { nstype } => match outcome {
            Outcome::Done => ProgressView::Act(Step::Chdir { path: v.oldcwd }),
            _ => ProgressView::Finished(Err(ErrorView::FatalRestore)),
        },
        Step::Chdir { path } => ProgressView::Finished(
            match outcome {
                Outcome::Done => Ok(()),
                _ => Err(ErrorView::Io { path }),
            },
        ),
    }
}

/// The caller and one target process's mount namespace.
#[derive(Debug)]
pub struct NsInfo {
    tgid: Pid,
    nstgid: Pid,
    need_setns: bool,
    mntns_path: Option<Vec<u8>>,
    oldns: u64,
    newns: u64,
    oldcwd: Vec<u8>,
}

impl View for NsInfo {
    type V = NsView;

    closed spec fn view(&self) -> NsView {
        NsView {
            tgid: self.tgid,
            nstgid: self.nstgid,
            need_setns: self.need_setns,
            mntns_path: match self.mntns_path {
                Some(path) => Some(path@),
                None => None,
            },
            oldns: self.oldns,
            newns: self.newns,
            oldcwd: self.oldcwd@,
        }
    }
}

impl NsInfo {
    #[verifier::type_invariant]
    closed spec fn inv(self) -> bool {
        wf(self@)
    }

    /// The context for the target `pid`.
    ///
    /// `oldns` and `newns` are the identities of `/proc/self/ns/mnt` and of
    /// the target's [`mntns_path`], taken at one moment; `oldcwd` is the
    /// caller's working directory and `record` the content of the target's
    /// [`status_path`]. Whether the caller has to change namespaces is
    /// settled here, once. What an exit needs is kept whether or not an
    /// entry will follow.
    pub fn new(pid: Pid, oldns: u64, newns: u64, oldcwd: Vec<u8>, record: &[u8]) -> (r: Result<
        NsInfo,
        Error,
    >)
        ensures
            match nspid(record@) {
                Some((tgid, nstgid)) => r matches Ok(info) && info@ == (NsView {
                    tgid: Pid::of(tgid),
                    nstgid: Pid::of(nstgid),
                    need_setns: oldns != newns,
                    mntns_path: if oldns != newns {
                        Some(spec_mntns_path(pid))
                    } else {
                        None
                    },
                    oldns,
                    newns,
                    oldcwd: oldcwd@,
                }),
                None => r matches Err(e) && e@ == ErrorView::NotFound,
            },
    {
        let (tgid, nstgid) = match get_nspid(record) {
            Ok(ids) => ids,
            Err(e) => {
                return Err(e);
            },
        };
        let need_setns = oldns != newns;
        let mntns_path = if need_setns {
            Some(mntns_path(pid))
        } else {
            None
        };
        Ok(NsInfo { tgid, nstgid, need_setns, mntns_path, oldns, newns, oldcwd })
    }

    /// The context where namespaces cannot be changed at all: the target is
    /// `pid` from everywhere, and entering and leaving do nothing.
    pub fn inert(pid: Pid) -> (r: NsInfo)
        ensures
            r@ == (NsView {
                tgid: pid,
                nstgid: pid,
                need_setns: false,
                mntns_path: None,
                oldns: 0,
                newns: 0,
                oldcwd: Seq::empty(),
            }),
    {
        NsInfo {
            tgid: pid,
            nstgid: pid,
            need_setns: false,
            mntns_path: None,
            oldns: 0,
            newns: 0,
            oldcwd: Vec::new(),
        }
    }

    /// Whether the caller has to change namespaces to see the target's
    /// files.
    pub fn need_setns(&self) -> (r: bool)
        ensures
            r == self@.need_setns,
            wf(self@),
    {
        proof {
            use_type_invariant(self);
        }
        self.need_setns
    }

    /// The id under which the target is found once the caller has done what
    /// [`NsInfo::enter_mntns`] asks: the id inside the target's namespace
    /// where the caller has to go there, the id that the caller sees where
    /// it stays.
    pub fn pid(&self) -> (r: Pid)
        ensures
            r == if self@.need_setns {
                self@.nstgid
            } else {
                self@.tgid
            },
    {
        if self.need_setns {
            self.nstgid
        } else {
            self.tgid
        }
    }

    /// Begins an entry into the target's namespace: says what to ask of the
    /// system, or that there is nothing to ask.
    pub fn enter_mntns(&self) -> (r: Progress)
        ensures
            r@ == spec_enter(self@),
    {
        proof {
            use_type_invariant(self);
        }
        if !self.need_setns {
            return Progress::Finished(Ok(()));
        }
        match &self.mntns_path {
            Some(path) => Progress::Act(Action::Attach { path: path.clone(), nstype: mount_kind() }),
            None => Progress::Finished(Ok(())),
        }
    }

    /// Begins the way back into the caller's own namespace and directory.
    pub fn leave_mntns(&self) -> (r: Progress)
        ensures
            r@ == spec_leave(self@),
    {
        if !self.need_setns {
            return Progress::Finished(Ok(()));
        }
        Progress::Act(Action::Reattach { nstype: mount_kind() })
    }

    /// Says what follows `done`, which the system answered with `outcome`.
    pub fn advance(&self, done: &Action, outcome: Outcome) -> (r: Progress)
        ensures
            r@ == spec_advance(self@, done@, outcome),
    {
        match done {
            Action::Attach { path, nstype } => Progress::Finished(
                match outcome {
                    Outcome::Done => Ok(()),
                    Outcome::NotOpened => Err(Error::Io { path: path.clone() }),
                    Outcome::Refused { errno } => Err(Error::Os { errno }),
                },
            ),
            Action::Reattach { nstype } => match outcome {
                Outcome::Done => Progress::Act(Action::Chdir { path: self.oldcwd.clone() }),
                _ => Progress::Finished(Err(Error::FatalRestore)),
            },
            Action::Chdir { path } => Progress::Finished(
                match outcome {
                    Outcome::Done => Ok(()),
                    _ => Err(Error::Io { path: path.clone() }),
                },
            ),
        }
    }
}

} // verus!
