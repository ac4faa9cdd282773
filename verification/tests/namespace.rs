use mntns::{mntns_path, status_path, Action, Error, NsInfo, Outcome, Pid, Progress};

const NESTED: &[u8] = b"Name:\tinit\nTgid:\t4242\nPid:\t4242\nNStgid:\t4242\t1\nNSpid:\t4242\t1\n";
const PLAIN: &[u8] = b"Name:\tcat\nTgid:\t4242\nPid:\t4242\nNStgid:\t4242\n";

/// The namespace and the working directory of a thread.
#[derive(Clone, Debug, PartialEq, Eq)]
struct Thread {
    mntns: u64,
    cwd: Vec<u8>,
}

/// Does to `thread` what the system does when it grants `action`.
fn grant(action: &Action, oldns: u64, newns: u64, thread: &mut Thread) {
    match action {
        Action::Attach { .. } => {
            thread.mntns = newns;
            thread.cwd = b"/".to_vec();
        }
        Action::Reattach { .. } => {
            thread.mntns = oldns;
            thread.cwd = b"/".to_vec();
        }
        Action::Chdir { path } => thread.cwd = path.clone(),
    }
}

/// Carries `progress` to its end, every request granted.
fn carry(
    info: &NsInfo,
    mut progress: Progress,
    oldns: u64,
    newns: u64,
    thread: &mut Thread,
) -> (Result<(), Error>, Vec<Action>) {
    let mut asked = Vec::new();
    loop {
        match progress {
            Progress::Finished(end) => return (end, asked),
            Progress::Act(action) => {
                grant(&action, oldns, newns, thread);
                progress = info.advance(&action, Outcome::Done);
                asked.push(action);
            }
        }
    }
}

#[test]
fn pid_from_number() {
    assert_eq!(Pid::from(0), Pid::Slf);
    assert_eq!(Pid::from(1), Pid::Pid(1));
    assert_eq!(Pid::from(u32::MAX), Pid::Pid(u32::MAX));
    assert!(Pid::Slf.is_self());
    assert!(!Pid::Pid(7).is_self());
}

#[test]
fn names_of_processes() {
    assert_eq!(Pid::Slf.name(), b"self");
    assert_eq!(Pid::Pid(1).name(), b"1");
    assert_eq!(Pid::Pid(9).name(), b"9");
    assert_eq!(Pid::Pid(10).name(), b"10");
    assert_eq!(Pid::Pid(1203).name(), b"1203");
    assert_eq!(Pid::Pid(u32::MAX).name(), b"4294967295");
    let mut out = b"pid ".to_vec();
    Pid::Pid(70).write_name(&mut out);
    assert_eq!(out, b"pid 70");
}

#[test]
fn paths_of_processes() {
    assert_eq!(mntns_path(Pid::Slf), b"/proc/self/ns/mnt");
    assert_eq!(mntns_path(Pid::Pid(4242)), b"/proc/4242/ns/mnt");
    assert_eq!(status_path(Pid::Slf), b"/proc/self/status");
    assert_eq!(status_path(Pid::Pid(4242)), b"/proc/4242/status");
    assert_eq!(status_path(Pid::from(u32::MAX)), b"/proc/4294967295/status");
}

#[test]
fn own_process_needs_no_switch() {
    let own: u32 = 31337;
    let mut content = b"Name:\tme\nTgid:\t".to_vec();
    content.extend_from_slice(&Pid::from(own).name());
    content.extend_from_slice(b"\nNStgid:\t");
    content.extend_from_slice(&Pid::from(own).name());
    content.push(b'\n');
    let info = NsInfo::new(Pid::Slf, 4026531841, 4026531841, b"/home".to_vec(), &content).unwrap();
    assert!(!info.need_setns());
    assert_eq!(info.pid(), Pid::from(own));
}

#[test]
fn target_in_the_same_namespace() {
    let info = NsInfo::new(Pid::Pid(4242), 4026531841, 4026531841, b"/home".to_vec(), PLAIN).unwrap();
    assert!(!info.need_setns());
    assert_eq!(info.pid(), Pid::Pid(4242));
    assert_eq!(info.enter_mntns(), Progress::Finished(Ok(())));
    assert_eq!(info.leave_mntns(), Progress::Finished(Ok(())));
}

#[test]
fn target_in_another_namespace() {
    let (oldns, newns) = (4026531841, 4026532500);
    let info = NsInfo::new(Pid::Pid(4242), oldns, newns, b"/home/me".to_vec(), NESTED).unwrap();
    assert!(info.need_setns());
    assert_eq!(info.pid(), Pid::Pid(1));

    let start = Thread { mntns: oldns, cwd: b"/home/me".to_vec() };
    let mut thread = start.clone();
    let (end, asked) = carry(&info, info.enter_mntns(), oldns, newns, &mut thread);
    assert_eq!(end, Ok(()));
    assert_eq!(
        asked,
        vec![Action::Attach { path: b"/proc/4242/ns/mnt".to_vec(), nstype: 0x20000 }]
    );
    assert_eq!(thread, Thread { mntns: newns, cwd: b"/".to_vec() });

    let (end, asked) = carry(&info, info.leave_mntns(), oldns, newns, &mut thread);
    assert_eq!(end, Ok(()));
    assert_eq!(
        asked,
        vec![
            Action::Reattach { nstype: 0x20000 },
            Action::Chdir { path: b"/home/me".to_vec() }
        ]
    );
    assert_eq!(thread, start);
}

#[test]
fn leaving_leads_home_from_anywhere() {
    let (oldns, newns) = (7, 8);
    let info = NsInfo::new(Pid::Pid(4242), oldns, newns, b"/srv".to_vec(), NESTED).unwrap();
    let mut thread = Thread { mntns: newns, cwd: b"/tmp/work".to_vec() };
    let (end, _) = carry(&info, info.leave_mntns(), oldns, newns, &mut thread);
    assert_eq!(end, Ok(()));
    assert_eq!(thread, Thread { mntns: oldns, cwd: b"/srv".to_vec() });
}

#[test]
fn without_a_switch_nothing_is_asked() {
    let info = NsInfo::new(Pid::Pid(4242), 7, 7, b"/srv".to_vec(), PLAIN).unwrap();
    let start = Thread { mntns: 7, cwd: b"/srv/deep".to_vec() };
    let mut thread = start.clone();
    for round in 0..5 {
        let (end, asked) = carry(&info, info.enter_mntns(), 7, 7, &mut thread);
        assert_eq!((end, asked), (Ok(()), vec![]));
        if round % 2 == 0 {
            let (end, asked) = carry(&info, info.leave_mntns(), 7, 7, &mut thread);
            assert_eq!((end, asked), (Ok(()), vec![]));
        }
        assert_eq!(thread, start);
    }
}

#[test]
fn the_kind_of_namespace_is_the_mount_namespace() {
    let info = NsInfo::new(Pid::Pid(4242), 1, 2, Vec::new(), NESTED).unwrap();
    match info.enter_mntns() {
        Progress::Act(Action::Attach { nstype, .. }) => assert_eq!(nstype, libc::CLONE_NEWNS),
        other => panic!("{:?}", other),
    }
    assert_eq!(info.leave_mntns(), Progress::Act(Action::Reattach { nstype: libc::CLONE_NEWNS }));
    assert_eq!(libc::CLONE_NEWNS, 0x0002_0000);
}

#[test]
fn a_failed_entry_is_reported() {
    let info = NsInfo::new(Pid::Pid(4242), 1, 2, b"/".to_vec(), NESTED).unwrap();
    let attach = match info.enter_mntns() {
        Progress::Act(action) => action,
        other => panic!("{:?}", other),
    };
    assert_eq!(
        info.advance(&attach, Outcome::NotOpened),
        Progress::Finished(Err(Error::Io { path: b"/proc/4242/ns/mnt".to_vec() }))
    );
    assert_eq!(
        info.advance(&attach, Outcome::Refused { errno: libc::EPERM }),
        Progress::Finished(Err(Error::Os { errno: libc::EPERM }))
    );
    assert_eq!(info.advance(&attach, Outcome::Done), Progress::Finished(Ok(())));
}

#[test]
fn a_failed_return_is_final() {
    let info = NsInfo::new(Pid::Pid(4242), 1, 2, b"/home".to_vec(), NESTED).unwrap();
    let reattach = Action::Reattach { nstype: libc::CLONE_NEWNS };
    assert_eq!(
        info.advance(&reattach, Outcome::Refused { errno: libc::EINVAL }),
        Progress::Finished(Err(Error::FatalRestore))
    );
    assert_eq!(
        info.advance(&reattach, Outcome::NotOpened),
        Progress::Finished(Err(Error::FatalRestore))
    );
    assert!(!Error::FatalRestore.is_recoverable());
}

#[test]
fn a_lost_directory_is_reported_after_the_return() {
    let info = NsInfo::new(Pid::Pid(4242), 1, 2, b"/gone".to_vec(), NESTED).unwrap();
    let reattach = Action::Reattach { nstype: libc::CLONE_NEWNS };
    let chdir = match info.advance(&reattach, Outcome::Done) {
        Progress::Act(action) => action,
        other => panic!("{:?}", other),
    };
    assert_eq!(chdir, Action::Chdir { path: b"/gone".to_vec() });
    let lost = Error::Io { path: b"/gone".to_vec() };
    assert_eq!(
        info.advance(&chdir, Outcome::Refused { errno: libc::ENOENT }),
        Progress::Finished(Err(Error::Io { path: b"/gone".to_vec() }))
    );
    assert_eq!(
        info.advance(&chdir, Outcome::NotOpened),
        Progress::Finished(Err(Error::Io { path: b"/gone".to_vec() }))
    );
    assert!(lost.is_recoverable());
    assert!(Error::NotFound.is_recoverable());
    assert!(Error::Os { errno: 1 }.is_recoverable());
}

#[test]
fn a_record_without_tgid_makes_no_context() {
    let made = NsInfo::new(Pid::Pid(4242), 1, 2, b"/".to_vec(), b"Name:\tcat\n");
    assert!(matches!(made, Err(Error::NotFound)));
    let made = NsInfo::new(Pid::from(u32::MAX), 1, 1, b"/".to_vec(), b"");
    assert!(matches!(made, Err(Error::NotFound)));
}

#[test]
fn the_inert_context_does_nothing() {
    let info = NsInfo::inert(Pid::Pid(4242));
    assert!(!info.need_setns());
    assert_eq!(info.pid(), Pid::Pid(4242));
    assert_eq!(info.enter_mntns(), Progress::Finished(Ok(())));
    assert_eq!(info.leave_mntns(), Progress::Finished(Ok(())));
    let own = NsInfo::inert(Pid::Slf);
    assert_eq!(own.pid(), Pid::Slf);
}
