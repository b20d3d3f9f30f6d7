use wl_showkeys::devmgr::{
    devmgr_run, open_reply, open_restricted, open_step, request_sent, restricted_path, DevMgr,
    FinishAction, OpenError, OpenStep, ServerStep, SocketKind, StartError, StartEvent, StartState,
};
use wl_showkeys::files::Access;
use wl_showkeys::message::{recv_msg, Msg, MsgType};

fn request(path: &str) -> Msg {
    let dev = DevMgr { fd: 5, pid: 42 };
    let out = dev.open(path);
    assert!(out.control.is_empty());
    Msg::from_bytes(&out.bytes)
}

#[test]
fn device_is_opened() {
    match devmgr_run("/dev/input", Some(&request("/dev/input/event1"))) {
        ServerStep::Open { path, flags } => {
            assert_eq!(path, "/dev/input/event1");
            assert_eq!(flags.access, Access::ReadOnly);
            assert!(flags.close_on_exec && flags.no_controlling_terminal && flags.nonblocking);
            assert!(!flags.create && !flags.exclusive);
        }
        _ => panic!("not opened"),
    }
}

#[test]
fn path_elsewhere_is_refused() {
    match devmgr_run("/dev/input", Some(&request("/etc/passwd"))) {
        ServerStep::Refuse { report, status } => {
            assert_eq!(report, "devmgr: Attempted path traversal: /etc/passwd");
            assert_eq!(status, 1);
        }
        _ => panic!("not refused"),
    }
}

#[test]
fn closed_socket_is_refused() {
    let (msg, _) = recv_msg(&[], None);
    match devmgr_run("/dev/input", Some(&msg)) {
        ServerStep::Refuse { report, status } => {
            assert_eq!(report, "devmgr: Attempted path traversal: ");
            assert_eq!(status, 1);
        }
        _ => panic!("not refused"),
    }
}

#[test]
fn failure_to_receive_ends_well() {
    assert!(matches!(devmgr_run("/dev/input", None), ServerStep::Exit(0)));
}

#[test]
fn unknown_message_ends_badly() {
    let msg = Msg::from_bytes(&[9]);
    assert!(matches!(devmgr_run("/dev/input", Some(&msg)), ServerStep::Exit(1)));
}

#[test]
fn end_is_answered() {
    match devmgr_run("/dev/input", Some(&Msg::new(MsgType::End))) {
        ServerStep::Reply { reply, status } => {
            assert_eq!(status, 0);
            assert!(reply.control.is_empty());
            let msg = Msg::from_bytes(&reply.bytes);
            assert_eq!(msg.msg_type, 1);
            assert!(msg.path.iter().all(|&b| b == 0));
        }
        _ => panic!("not answered"),
    }
}

fn answer(fd: i32, os_error: Option<i32>) -> OpenStep {
    let reply = open_reply(fd, os_error);
    let (msg, fd) = recv_msg(&reply.reply.bytes, Some(&reply.reply.control));
    open_step(0, Ok((&msg, fd)))
}

#[test]
fn opened_descriptor_arrives() {
    assert_eq!(answer(9, None), OpenStep::Done(Ok(9)));
    assert_eq!(answer(0, Some(2)), OpenStep::Done(Ok(0)));
    assert_eq!(open_reply(9, None).close, Some(9));
}

#[test]
fn failed_open_gives_its_error() {
    assert_eq!(answer(-1, Some(2)), OpenStep::Done(Err(OpenError::Errno(2))));
    assert_eq!(answer(-1, None), OpenStep::Done(Err(OpenError::Errno(1))));
    assert_eq!(open_reply(-1, Some(2)).close, None);
}

#[test]
fn success_without_descriptor_is_an_error() {
    let msg = Msg::from_errno(0);
    assert_eq!(open_step(0, Ok((&msg, None))), OpenStep::Done(Err(OpenError::NoDescriptor)));
}

#[test]
fn reply_is_waited_for_three_times() {
    assert_eq!(open_step(0, Err(4)), OpenStep::Retry(1));
    assert_eq!(open_step(1, Err(4)), OpenStep::Retry(2));
    assert_eq!(open_step(2, Err(11)), OpenStep::Done(Err(OpenError::Socket(11))));
}

#[test]
fn request_that_is_not_sent_fails() {
    assert_eq!(request_sent(Ok(())), None);
    assert_eq!(request_sent(Err(libc::EPIPE)), Some(OpenError::Socket(libc::EPIPE)));
}

#[test]
fn finish_stops_the_device_manager() {
    let actions = DevMgr { fd: 5, pid: 42 }.finish();
    assert_eq!(actions.len(), 4);
    match &actions[0] {
        FinishAction::Send { fd, request } => {
            assert_eq!(*fd, 5);
            assert_eq!(request.bytes[0], 1);
        }
        _ => panic!("nothing sent"),
    }
    assert!(matches!(actions[1], FinishAction::Receive { fd: 5 }));
    assert!(matches!(actions[2], FinishAction::Wait { pid: 42 }));
    assert!(matches!(actions[3], FinishAction::Close { fd: 5 }));
}

fn run(events: &[StartEvent]) -> StartState<'static> {
    let mut state = StartState::CheckUser;
    for event in events {
        state = DevMgr::start("/dev/input", state, *event);
    }
    state
}

#[test]
fn start_drops_privileges() {
    let events = [
        StartEvent::EffectiveUser(0),
        StartEvent::Sockets(3, 4),
        StartEvent::ForkedChild(77),
        StartEvent::Succeeded,
        StartEvent::Succeeded,
        StartEvent::Succeeded,
        StartEvent::Failed(1),
    ];
    assert_eq!(run(&events), StartState::Started(DevMgr { fd: 3, pid: 77 }));
    assert_eq!(run(&events[..1]), StartState::MakeSockets { kind: SocketKind::UnixSeqPacket });
    assert_eq!(run(&events[..4]), StartState::DropGroup { sock0: 3, child: 77 });
    assert_eq!(run(&events[..5]), StartState::DropUser { sock0: 3, child: 77 });
    assert_eq!(run(&events[..6]), StartState::ProbeRoot { sock0: 3, child: 77 });
}

#[test]
fn start_fails_where_root_stays() {
    let events = [
        StartEvent::EffectiveUser(0),
        StartEvent::Sockets(3, 4),
        StartEvent::ForkedChild(77),
        StartEvent::Succeeded,
        StartEvent::Succeeded,
        StartEvent::Succeeded,
        StartEvent::Succeeded,
    ];
    assert_eq!(run(&events), StartState::Failed(StartError::RootKept));
}

#[test]
fn start_needs_root() {
    assert_eq!(
        run(&[StartEvent::EffectiveUser(1000), StartEvent::Sockets(3, 4)]),
        StartState::Failed(StartError::NotSetuid)
    );
}

#[test]
fn start_fails_with_the_system() {
    assert_eq!(
        run(&[StartEvent::EffectiveUser(0), StartEvent::Failed(24)]),
        StartState::Failed(StartError::System(24))
    );
    assert_eq!(
        run(&[StartEvent::EffectiveUser(0), StartEvent::Sockets(3, 4), StartEvent::Failed(11)]),
        StartState::Failed(StartError::System(11))
    );
}

#[test]
fn child_serves() {
    assert_eq!(
        run(&[StartEvent::EffectiveUser(0), StartEvent::Sockets(3, 4), StartEvent::InChild]),
        StartState::Serve { close: 3, sock: 4, devpath: "/dev/input" }
    );
}

#[test]
fn input_library_is_told_error_numbers() {
    assert_eq!(restricted_path(Some("/dev/input/event0")), Ok("/dev/input/event0"));
    assert_eq!(restricted_path(None), Err(libc::EINVAL));
    assert_eq!(open_restricted(Ok(6)), Ok(6));
    assert_eq!(open_restricted(Err(OpenError::NoDescriptor)), Err(libc::EACCES));
}

#[test]
fn start_errors_are_described() {
    assert_eq!(
        StartError::NotSetuid.message(""),
        "wshowkeys needs to be setuid to read input events"
    );
    assert_eq!(StartError::RootKept.message("EPERM"), "devmgr: failed to drop root");
    assert_eq!(StartError::System(24).message("Too many open files"), "Too many open files");
}

#[test]
fn open_errors_are_described() {
    assert_eq!(OpenError::Errno(2).message(""), "Failed to open device: errno 2");
    assert_eq!(OpenError::Errno(130).message(""), "Failed to open device: errno 130");
    assert_eq!(OpenError::Errno(0).message(""), "Failed to open device: errno 0");
    assert_eq!(
        OpenError::Errno(i32::MIN).message(""),
        "Failed to open device: errno -2147483648"
    );
    assert_eq!(OpenError::NoDescriptor.message("x"), "No file descriptor received");
    assert_eq!(OpenError::Socket(4).message("Interrupted"), "Interrupted");
}
