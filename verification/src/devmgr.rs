//! The device manager: a child process that keeps root privileges to open input devices, and the
//! display process that drops them and asks it to.
//!
//! Each function here decides what comes next; the caller makes the system calls and reports what
//! they gave.

use crate::files::{Access, OpenFlags};
use crate::message::{
    blank, control_with, errno_is_read_back, errno_reply, path_is_read_back, path_text,
    received_is_sent, reply_errno, send_msg, unwire, wire, written_path, Msg, MsgModel, MsgType,
    ControlMessage, Outgoing, PATH_MAX,
};
use crate::number::{append_decimal, decimal_text};
use crate::text::starts_with;
use vstd::prelude::*;
use vstd::string::StringExecFns;
use vstd::utf8::encode_utf8;

verus! {

/// Reads the constant `libc::EINVAL`, which is 22 on Linux.
#[verifier::external_body]
fn einval() -> (r: i32)
    ensures
        r == 22,
{
    libc::EINVAL
}

/// Reads the constant `libc::EACCES`, which is 13 on Linux.
#[verifier::external_body]
fn eacces() -> (r: i32)
    ensures
        r == 13,
{
    libc::EACCES
}

/// What the device manager does about what it received.
pub enum ServerStep {
    /// Exit with a status.
    Exit(i32),
    /// Print a report of a path outside the device directory, then exit with a status.
    Refuse { report: String, status: i32 },
    /// Open the device like this and reply with [`open_reply`].
    Open { path: String, flags: OpenFlags },
    /// Send this, then exit with a status.
    Reply { reply: Outgoing, status: i32 },
}

/// The report of a path outside the device directory.
pub open spec fn refusal_report(path: Seq<char>) -> Seq<char> {
    "devmgr: Attempted path traversal: "@ + path
}

/// How a device is opened: for reading alone, and without waiting for input.
pub open spec fn device_flags() -> OpenFlags {
    OpenFlags {
        access: Access::ReadOnly,
        create: false,
        exclusive: false,
        close_on_exec: true,
        no_controlling_terminal: true,
        nonblocking: true,
    }
}

/// What the device manager does about a message, or about the failure to receive one.
pub open spec fn is_server_step(devpath: Seq<char>, received: Option<MsgModel>, step: ServerStep) -> bool {
    match received {
        None => step == ServerStep::Exit(0),
        Some(m) => if m.msg_type == MsgType::Open.code() {
            if devpath.is_prefix_of(path_text(m.path)) {
                step matches ServerStep::Open { path, flags } && path@ == path_text(m.path)
                    && flags == device_flags()
            } else {
                step matches ServerStep::Refuse { report, status } && report@ == refusal_report(
                    path_text(m.path),
                ) && status == 1
            }
        } else if m.msg_type == MsgType::End.code() {
            step matches ServerStep::Reply { reply, status } && reply.bytes@ == wire(
                blank(MsgType::End),
            ) && control_with(reply.control@, None) && status == 0
        } else {
            step == ServerStep::Exit(1)
        },
    }
}

/// One round of the device manager: what to do about a message, or about the failure to receive
/// one. Only a path that starts with `devpath` is ever opened, and never for writing.
pub fn devmgr_run(devpath: &str, received: Option<&Msg>) -> (r: ServerStep)
    ensures
        is_server_step(
            devpath@,
            match received {
                Some(msg) => Some(msg@),
                None => None,
            },
            r,
        ),
        r matches ServerStep::Open { path, flags } ==> {
            &&& devpath@.is_prefix_of(path@)
            &&& flags.access == Access::ReadOnly
            &&& !flags.create && !flags.exclusive
            &&& flags.close_on_exec && flags.no_controlling_terminal && flags.nonblocking
            &&& received matches Some(msg) && msg.msg_type == 0 && path@ == path_text(msg.path@)
        },
        received is None ==> r == ServerStep::Exit(0),
        received matches Some(msg) && msg.msg_type > 1 ==> r == ServerStep::Exit(1),
        received matches Some(msg) && msg.msg_type == 0 ==> if devpath@.is_prefix_of(
            path_text(received->0.path@),
        ) {
            r is Open
        } else {
            r matches ServerStep::Refuse { report, status } && status == 1 && report@
                == "devmgr: Attempted path traversal: "@ + path_text(received->0.path@)
        },
        received matches Some(msg) && msg.msg_type == 1 ==> (r matches ServerStep::Reply {
            reply,
            status,
        } && status == 0 && reply.control@.len() == 0 && reply.bytes@.len() == 4097
            && reply.bytes@[0] == 1 && forall|i: int|
            1 <= i < 4097 ==> #[trigger] reply.bytes@[i] == 0),
{
    let msg = match received {
        Some(msg) => msg,
        None => {
            return ServerStep::Exit(0);
        },
    };
    match MsgType::from_u8(msg.msg_type) {
        None => ServerStep::Exit(1),
        Some(MsgType::Open) => {
            let path = msg.get_path();
            if starts_with(path, devpath) {
                let flags = OpenFlags {
                    access: Access::ReadOnly,
                    create: false,
                    exclusive: false,
                    close_on_exec: true,
                    no_controlling_terminal: true,
                    nonblocking: true,
                };
                ServerStep::Open { path: path.to_owned(), flags }
            } else {
                let mut report: String = "devmgr: Attempted path traversal: ".to_owned();
                report.append(path);
                ServerStep::Refuse { report, status: 1 }
            }
        },
        Some(MsgType::End) => {
            let response = Msg::new(MsgType::End);
            ServerStep::Reply { reply: send_msg(None, &response), status: 0 }
        },
    }
}

/// The error number that stands for the outcome of an `open` call: zero for success, one where
/// the system gave none.
pub open spec fn open_errno(fd: i32, os_error: Option<i32>) -> i32 {
    if fd >= 0 {
        0
    } else {
        match os_error {
            Some(errno) => errno,
            None => 1,
        }
    }
}

/// The descriptor that an `open` call gave, if it succeeded.
pub open spec fn opened(fd: i32) -> Option<i32> {
    if fd >= 0 {
        Some(fd)
    } else {
        None
    }
}

/// The reply to a request to open a device, and the descriptor to close once it is sent.
pub struct OpenReply {
    pub reply: Outgoing,
    pub close: Option<i32>,
}

/// The device manager's reply once it has tried to open a device. `fd` is negative where the call
/// failed; `os_error` is then the system's error number, if it has one.
pub fn open_reply(fd: i32, os_error: Option<i32>) -> (r: OpenReply)
    ensures
        r.reply.bytes@ == wire(errno_reply(open_errno(fd, os_error))),
        control_with(r.reply.control@, opened(fd)),
        r.close == opened(fd),
        fd >= 0 ==> reply_errno(unwire(r.reply.bytes@)) == 0 && r.close == Some(fd)
            && r.reply.control@.len() == 1 && (r.reply.control@[0] matches ControlMessage::ScmRights(
            fds,
        ) && fds@.len() == 1 && fds@[0] == fd),
        fd < 0 ==> r.close is None && r.reply.control@.len() == 0,
        fd < 0 && os_error is Some ==> reply_errno(unwire(r.reply.bytes@)) == os_error->0,
        fd < 0 && os_error is None ==> reply_errno(unwire(r.reply.bytes@)) == 1,
        r.reply.bytes@.len() == 4097 && r.reply.bytes@[0] == 0,
{
    let errno: i32 = if fd >= 0 {
        0
    } else {
        match os_error {
            Some(errno) => errno,
            None => 1,
        }
    };
    let response = Msg::from_errno(errno);
    proof {
        errno_is_read_back(errno);
        received_is_sent(errno_reply(errno));
    }
    let send_fd: Option<i32> = if fd >= 0 {
        Some(fd)
    } else {
        None
    };
    OpenReply { reply: send_msg(send_fd, &response), close: send_fd }
}

/// Why a device could not be opened.
#[derive(Debug, Clone, Copy, PartialEq, Eq, Structural)]
pub enum OpenError {
    /// The request could not be sent, or no reply could be received: the system's error number.
    Socket(i32),
    /// The device manager could not open the device: the system's error number.
    Errno(i32),
    /// The reply reports success and comes without a descriptor.
    NoDescriptor,
}

impl OpenError {
    /// What is said of the error; `system` is what the system says of its error number.
    pub fn message(self, system: &str) -> (r: String)
        ensures
            r@ == (match self {
                OpenError::Socket(_) => system@,
                OpenError::Errno(errno) => "Failed to open device: errno "@ + decimal_text(
                    errno as int,
                ),
                OpenError::NoDescriptor => "No file descriptor received"@,
            }),
    {
        match self {
            OpenError::Socket(_) => system.to_owned(),
            OpenError::Errno(errno) => {
                let mut text: String = "Failed to open device: errno ".to_owned();
                append_decimal(&mut text, errno);
                text
            },
            OpenError::NoDescriptor => "No file descriptor received".to_owned(),
        }
    }
}

/// What is wrong with a request after it was sent, or could not be: nothing is received where the
/// system reported an error number.
pub fn request_sent(sent: Result<(), i32>) -> (r: Option<OpenError>)
    ensures
        r == (match sent {
            Ok(_) => None,
            Err(errno) => Some(OpenError::Socket(errno)),
        }),
{
    match sent {
        Ok(_) => None,
        Err(errno) => Some(OpenError::Socket(errno)),
    }
}

/// What to do after an attempt to receive the reply to a request.
#[derive(Debug, Clone, Copy, PartialEq, Eq)]
pub enum OpenStep {
    /// Receive again: this is the number of failed attempts so far.
    Retry(u32),
    /// The request is answered.
    Done(Result<i32, OpenError>),
}

/// How often a reply is waited for.
pub const OPEN_ATTEMPTS: u32 = 3;

/// What a reply and the descriptor beside it say.
pub open spec fn reply_result(reply: MsgModel, fd: Option<i32>) -> Result<i32, OpenError> {
    if reply_errno(reply) != 0 {
        Err(OpenError::Errno(reply_errno(reply) as i32))
    } else {
        match fd {
            Some(fd) => Ok(fd),
            None => Err(OpenError::NoDescriptor),
        }
    }
}

/// What to do after the attempt that follows `failed` failed ones, where that attempt failed too.
pub open spec fn after_failed_receive(failed: u32, errno: i32) -> OpenStep {
    if failed + 1 < OPEN_ATTEMPTS {
        OpenStep::Retry((failed + 1) as u32)
    } else {
        OpenStep::Done(Err(OpenError::Socket(errno)))
    }
}

/// What to do after an attempt to receive the reply to a request, with `failed` failed attempts
/// before it.
pub fn open_step(failed: u32, received: Result<(&Msg, Option<i32>), i32>) -> (r: OpenStep)
    requires
        failed < OPEN_ATTEMPTS,
    ensures
        r == (match received {
            Ok((msg, fd)) => OpenStep::Done(reply_result(msg@, fd)),
            Err(errno) => after_failed_receive(failed, errno),
        }),
        received matches Err(errno) ==> {
            &&& failed < 2 ==> r == OpenStep::Retry((failed + 1) as u32)
            &&& failed == 2 ==> r == OpenStep::Done(Err(OpenError::Socket(errno)))
        },
        received matches Ok((msg, fd)) ==> {
            let errno = reply_errno(msg@);
            &&& errno != 0 ==> r == OpenStep::Done(Err(OpenError::Errno(errno as i32)))
            &&& errno == 0 && fd is Some ==> r == OpenStep::Done(Ok(fd->0))
            &&& errno == 0 && fd is None ==> r == OpenStep::Done(Err(OpenError::NoDescriptor))
        },
{
    match received {
        Ok((response, fd)) => {
            let errno: i32 = response.errno();
            if errno != 0 {
                return OpenStep::Done(Err(OpenError::Errno(errno)));
            }
            match fd {
                Some(fd) => OpenStep::Done(Ok(fd)),
                None => OpenStep::Done(Err(OpenError::NoDescriptor)),
            }
        },
        Err(errno) => if failed < OPEN_ATTEMPTS - 1 {
            OpenStep::Retry(failed + 1)
        } else {
            OpenStep::Done(Err(OpenError::Socket(errno)))
        },
    }
}

/// What is asked of the system to shut the device manager down, in order. Failures are ignored.
pub enum FinishAction {
    /// Send on the socket.
    Send { fd: i32, request: Outgoing },
    /// Receive one message from the socket.
    Receive { fd: i32 },
    /// Wait for the process.
    Wait { pid: i32 },
    /// Close the descriptor.
    Close { fd: i32 },
}

/// The display process's end of a running device manager.
#[derive(Debug, Clone, Copy, PartialEq, Eq, Structural)]
pub struct DevMgr {
    /// The socket to the device manager.
    pub fd: i32,
    /// The device manager's process.
    pub pid: i32,
}

/// Why the device manager could not be started.
#[derive(Debug, Clone, Copy, PartialEq, Eq, Structural)]
pub enum StartError {
    /// The program does not run as root.
    NotSetuid,
    /// A system call failed with this error number.
    System(i32),
    /// Root privileges could be taken back after they were dropped.
    RootKept,
}

impl StartError {
    /// What is said of the error; `system` is what the system says of its error number.
    pub fn message(self, system: &str) -> (r: String)
        ensures
            r@ == (match self {
                StartError::NotSetuid => "wshowkeys needs to be setuid to read input events"@,
                StartError::System(_) => system@,
                StartError::RootKept => "devmgr: failed to drop root"@,
            }),
    {
        match self {
            StartError::NotSetuid => "wshowkeys needs to be setuid to read input events".to_owned(),
            StartError::System(_) => system.to_owned(),
            StartError::RootKept => "devmgr: failed to drop root".to_owned(),
        }
    }
}

/// What kind of sockets are made.
#[derive(Debug, Clone, Copy, PartialEq, Eq, Structural)]
pub enum SocketKind {
    UnixStream,
    UnixDatagram,
    /// Keeps messages whole and in order.
    UnixSeqPacket,
}

/// How far the start of the device manager has come. Each state but the last three waits for the
/// answer to one system call.
#[derive(Debug, Clone, Copy, PartialEq, Eq)]
pub enum StartState<'a> {
    /// Ask for the effective user.
    CheckUser,
    /// Make a pair of connected sockets of this kind.
    MakeSockets { kind: SocketKind },
    /// Fork.
    Fork { sock0: i32, sock1: i32 },
    /// In the parent: close the child's socket.
    CloseChildSocket { sock0: i32, sock1: i32, child: i32 },
    /// In the parent: set the group to the real one.
    DropGroup { sock0: i32, child: i32 },
    /// In the parent: set the user to the real one.
    DropUser { sock0: i32, child: i32 },
    /// In the parent: try to become root again.
    ProbeRoot { sock0: i32, child: i32 },
    /// In the parent: the device manager runs and root privileges are gone.
    Started(DevMgr),
    /// In the child: close the first socket and serve the second, with this device directory.
    Serve { close: i32, sock: i32, devpath: &'a str },
    /// The start failed.
    Failed(StartError),
}

/// What the system answered during the start of the device manager.
#[derive(Debug, Clone, Copy, PartialEq, Eq, Structural)]
pub enum StartEvent {
    /// The effective user.
    EffectiveUser(u32),
    /// A pair of sockets.
    Sockets(i32, i32),
    /// The fork, seen from the parent.
    ForkedChild(i32),
    /// The fork, seen from the child.
    InChild,
    /// The call that was waited for succeeded.
    Succeeded,
    /// The call that was waited for failed, with this error number.
    Failed(i32),
}

/// The state that follows `state` when the system answers `event`. An answer to another question
/// changes nothing.
pub open spec fn next_start<'a>(
    devpath: &'a str,
    state: StartState<'a>,
    event: StartEvent,
) -> StartState<'a> {
    match (state, event) {
        (StartState::CheckUser, StartEvent::EffectiveUser(user)) => if user == 0 {
            StartState::MakeSockets { kind: SocketKind::UnixSeqPacket }
        } else {
            StartState::Failed(StartError::NotSetuid)
        },
        (StartState::MakeSockets { .. }, StartEvent::Sockets(sock0, sock1)) => StartState::Fork {
            sock0,
            sock1,
        },
        (StartState::Fork { sock0, sock1 }, StartEvent::ForkedChild(child)) => {
            StartState::CloseChildSocket { sock0, sock1, child }
        },
        (StartState::Fork { sock0, sock1 }, StartEvent::InChild) => StartState::Serve {
            close: sock0,
            sock: sock1,
            devpath,
        },
        (StartState::CloseChildSocket { sock0, child, .. }, StartEvent::Succeeded) => {
            StartState::DropGroup { sock0, child }
        },
        (StartState::DropGroup { sock0, child }, StartEvent::Succeeded) => StartState::DropUser {
            sock0,
            child,
        },
        (StartState::DropUser { sock0, child }, StartEvent::Succeeded) => StartState::ProbeRoot {
            sock0,
            child,
        },
        (StartState::ProbeRoot { .. }, StartEvent::Succeeded) => StartState::Failed(
            StartError::RootKept,
        ),
        (StartState::ProbeRoot { sock0, child }, StartEvent::Failed(_)) => StartState::Started(
            DevMgr { fd: sock0, pid: child },
        ),
        (StartState::MakeSockets { .. }, StartEvent::Failed(errno)) => StartState::Failed(
            StartError::System(errno),
        ),
        (StartState::Fork { .. }, StartEvent::Failed(errno)) => StartState::Failed(
            StartError::System(errno),
        ),
        (StartState::CloseChildSocket { .. }, StartEvent::Failed(errno)) => StartState::Failed(
            StartError::System(errno),
        ),
        (StartState::DropGroup { .. }, StartEvent::Failed(errno)) => StartState::Failed(
            StartError::System(errno),
        ),
        (StartState::DropUser { .. }, StartEvent::Failed(errno)) => StartState::Failed(
            StartError::System(errno),
        ),
        _ => state,
    }
}

impl DevMgr {
    /// One step of the start of the device manager for a device directory, from
    /// [`StartState::CheckUser`] on.
    pub fn start<'a>(devpath: &'a str, state: StartState<'a>, event: StartEvent) -> (r: StartState<
        'a,
    >)
        ensures
            r == next_start(devpath, state, event),
            state is CheckUser ==> {
                &&& event == StartEvent::EffectiveUser(0) ==> r == (StartState::MakeSockets {
                    kind: SocketKind::UnixSeqPacket,
                })
                &&& (event matches StartEvent::EffectiveUser(user) && user != 0) ==> r
                    == StartState::<'a>::Failed(StartError::NotSetuid)
                &&& !(event is EffectiveUser) ==> r == state
            },
            state is ProbeRoot ==> {
                &&& event is Succeeded ==> r == StartState::<'a>::Failed(StartError::RootKept)
                &&& event is Failed ==> r is Started
            },
            r is Started ==> state == r || (state is ProbeRoot && event is Failed),
            r is ProbeRoot ==> state == r || (state is DropUser && event is Succeeded),
            r is DropUser ==> state == r || (state is DropGroup && event is Succeeded),
            r is DropGroup ==> state == r || (state is CloseChildSocket && event is Succeeded),
            event matches StartEvent::Failed(errno) && (state is MakeSockets || state is Fork
                || state is CloseChildSocket || state is DropGroup || state is DropUser) ==> r
                == StartState::<'a>::Failed(StartError::System(event->Failed_0)),
    {
        match (state, event) {
            (StartState::CheckUser, StartEvent::EffectiveUser(user)) => if user != 0 {
                StartState::Failed(StartError::NotSetuid)
            } else {
                StartState::MakeSockets { kind: SocketKind::UnixSeqPacket }
            },
            (StartState::MakeSockets { .. }, StartEvent::Sockets(sock0, sock1)) => StartState::Fork {
                sock0,
                sock1,
            },
            (StartState::Fork { sock0, sock1 }, StartEvent::ForkedChild(child)) => {
                StartState::CloseChildSocket { sock0, sock1, child }
            },
            (StartState::Fork { sock0, sock1 }, StartEvent::InChild) => StartState::Serve {
                close: sock0,
                sock: sock1,
                devpath,
            },
            (StartState::CloseChildSocket { sock0, child, .. }, StartEvent::Succeeded) => {
                StartState::DropGroup { sock0, child }
            },
            (StartState::DropGroup { sock0, child }, StartEvent::Succeeded) => {
                StartState::DropUser { sock0, child }
            },
            (StartState::DropUser { sock0, child }, StartEvent::Succeeded) => {
                StartState::ProbeRoot { sock0, child }
            },
            (StartState::ProbeRoot { .. }, StartEvent::Succeeded) => StartState::Failed(
                StartError::RootKept,
            ),
            (StartState::ProbeRoot { sock0, child }, StartEvent::Failed(_)) => {
                StartState::Started(DevMgr { fd: sock0, pid: child })
            },
            (StartState::CheckUser, _) => state,
            (StartState::Started(_), _) => state,
            (StartState::Serve { .. }, _) => state,
            (StartState::Failed(_), _) => state,
            (_, StartEvent::Failed(errno)) => StartState::Failed(StartError::System(errno)),
            _ => state,
        }
    }

    /// The request to open the device at `path`, to be sent on the socket. [`open_step`] decides
    /// what follows.
    pub fn open(&self, path: &str) -> (r: Outgoing)
        ensures
            r.bytes@ == wire(
                MsgModel {
                    path: written_path(blank(MsgType::Open).path, encode_utf8(path@)),
                    ..blank(MsgType::Open)
                },
            ),
            control_with(r.control@, None),
            r.control@.len() == 0,
            r.bytes@.len() == 4097 && r.bytes@[0] == 0,
            forall|i: int|
                0 <= i < encode_utf8(path@).len() && i < 4095 ==> r.bytes@[#[trigger] (i + 1)]
                    == encode_utf8(path@)[i],
            forall|i: int|
                encode_utf8(path@).len() < i < 4097 ==> #[trigger] r.bytes@[i] == 0,
    {
        let mut msg = Msg::new(MsgType::Open);
        msg.set_path(path);
        send_msg(None, &msg)
    }

    /// What shuts the device manager down.
    pub fn finish(self) -> (r: Vec<FinishAction>)
        ensures
            r@.len() == 4,
            r@[0] matches FinishAction::Send { fd, request } && fd == self.fd && request.bytes@
                == wire(blank(MsgType::End)) && control_with(request.control@, None),
            r@[1] == (FinishAction::Receive { fd: self.fd }),
            r@[2] == (FinishAction::Wait { pid: self.pid }),
            r@[3] == (FinishAction::Close { fd: self.fd }),
            r@[0] matches FinishAction::Send { fd, request } && request.bytes@.len() == 4097
                && request.bytes@[0] == 1 && request.control@.len() == 0,
    {
        let msg = Msg::new(MsgType::End);
        let mut r: Vec<FinishAction> = Vec::new();
        r.push(FinishAction::Send { fd: self.fd, request: send_msg(None, &msg) });
        r.push(FinishAction::Receive { fd: self.fd });
        r.push(FinishAction::Wait { pid: self.pid });
        r.push(FinishAction::Close { fd: self.fd });
        r
    }
}

/// The path of a device as text; the error number `EINVAL` where it is none.
pub fn restricted_path(path: Option<&str>) -> (r: Result<&str, i32>)
    ensures
        r == (match path {
            Some(path) => Ok::<&str, i32>(path),
            None => Err(22i32),
        }),
{
    match path {
        Some(path) => Ok(path),
        None => Err(einval()),
    }
}

/// What the input library is told of an attempt to open a device: the descriptor, or the error
/// number `EACCES` whatever went wrong.
pub fn open_restricted(opened: Result<i32, OpenError>) -> (r: Result<i32, i32>)
    ensures
        r == (match opened {
            Ok(fd) => Ok::<i32, i32>(fd),
            Err(_) => Err(13i32),
        }),
{
    match opened {
        Ok(fd) => Ok(fd),
        Err(_) => Err(eacces()),
    }
}

/// The state that a series of answers leads to.
pub open spec fn start_after<'a>(devpath: &'a str, events: Seq<StartEvent>) -> StartState<'a>
    decreases events.len(),
{
    if events.len() == 0 {
        StartState::CheckUser
    } else {
        next_start(devpath, start_after(devpath, events.drop_last()), events.last())
    }
}

/// Whether these three calls stand in the history in this order: the group and the user were set
/// to the real ones, and the attempt to become root again failed.
pub open spec fn privileges_dropped(
    devpath: &str,
    events: Seq<StartEvent>,
    group: int,
    user: int,
    probe: int,
) -> bool {
    &&& 0 <= group < user < probe < events.len()
    &&& start_after(devpath, events.take(group)) is DropGroup
    &&& events[group] == StartEvent::Succeeded
    &&& start_after(devpath, events.take(user)) is DropUser
    &&& events[user] == StartEvent::Succeeded
    &&& start_after(devpath, events.take(probe)) is ProbeRoot
    &&& events[probe] is Failed
}

/// A start that ended well dropped its root privileges and could not take them back.
pub proof fn started_without_root(devpath: &str, events: Seq<StartEvent>)
    requires
        start_after(devpath, events) is Started,
    ensures
        exists|group: int, user: int, probe: int|
            privileges_dropped(devpath, events, group, user, probe),
{
    let probe = last_entry(devpath, events, 3);
    let user = last_entry(devpath, events.take(probe), 2);
    assert(events.take(probe).take(user) =~= events.take(user));
    let group = last_entry(devpath, events.take(user), 1);
    assert(events.take(user).take(group) =~= events.take(group));
    assert(privileges_dropped(devpath, events, group, user, probe));
}

/// A start that got past the question for the user was made as root.
pub proof fn started_by_root(devpath: &str, events: Seq<StartEvent>)
    requires
        !(start_after(devpath, events) is CheckUser),
        !(start_after(devpath, events) matches StartState::Failed(StartError::NotSetuid)),
    ensures
        events.contains(StartEvent::EffectiveUser(0)),
    decreases events.len(),
{
    if events.len() > 0 {
        let before = start_after(devpath, events.drop_last());
        if before is CheckUser {
            assert(events[events.len() - 1] == StartEvent::EffectiveUser(0));
        } else {
            started_by_root(devpath, events.drop_last());
            let i = choose|i: int|
                0 <= i < events.len() - 1 && events.drop_last()[i] == StartEvent::EffectiveUser(0);
            assert(events[i] == StartEvent::EffectiveUser(0));
        }
    }
}

/// The states on the way to a good end: how many privileged steps lie behind them.
spec fn stage(state: StartState) -> int {
    match state {
        StartState::DropGroup { .. } => 0,
        StartState::DropUser { .. } => 1,
        StartState::ProbeRoot { .. } => 2,
        StartState::Started(_) => 3,
        _ => -1,
    }
}

/// The answer that led into a stage, with the stage before it.
proof fn last_entry(devpath: &str, events: Seq<StartEvent>, n: int) -> (i: int)
    requires
        1 <= n <= 3,
        stage(start_after(devpath, events)) == n,
    ensures
        0 <= i < events.len(),
        stage(start_after(devpath, events.take(i))) == n - 1,
        n < 3 ==> events[i] == StartEvent::Succeeded,
        n == 3 ==> events[i] is Failed,
    decreases events.len(),
{
    let shorter = events.drop_last();
    assert(shorter =~= events.take(events.len() - 1));
    if stage(start_after(devpath, shorter)) == n {
        let i = last_entry(devpath, shorter, n);
        assert(shorter.take(i) =~= events.take(i));
        i
    } else {
        events.len() - 1
    }
}

/// The sockets that a state knows of: the display's, and the child's where it is still known.
spec fn sockets_of(state: StartState) -> Option<(i32, Option<i32>)> {
    match state {
        StartState::Fork { sock0, sock1 } => Some((sock0, Some(sock1))),
        StartState::CloseChildSocket { sock0, sock1, .. } => Some((sock0, Some(sock1))),
        StartState::DropGroup { sock0, .. } => Some((sock0, None)),
        StartState::DropUser { sock0, .. } => Some((sock0, None)),
        StartState::ProbeRoot { sock0, .. } => Some((sock0, None)),
        StartState::Started(devmgr) => Some((devmgr.fd, None)),
        StartState::Serve { close, sock, .. } => Some((close, Some(sock))),
        _ => None,
    }
}

/// The child process that a state knows of.
spec fn child_of(state: StartState) -> Option<i32> {
    match state {
        StartState::CloseChildSocket { child, .. } => Some(child),
        StartState::DropGroup { child, .. } => Some(child),
        StartState::DropUser { child, .. } => Some(child),
        StartState::ProbeRoot { child, .. } => Some(child),
        StartState::Started(devmgr) => Some(devmgr.pid),
        _ => None,
    }
}

/// The answer that a state knows its sockets from: it came when a pair was asked for that keeps
/// messages whole and in order.
proof fn sockets_entry(devpath: &str, events: Seq<StartEvent>) -> (i: int)
    requires
        sockets_of(start_after(devpath, events)) is Some,
    ensures
        0 <= i < events.len(),
        start_after(devpath, events.take(i)) == (StartState::MakeSockets {
            kind: SocketKind::UnixSeqPacket,
        }),
        events[i] matches StartEvent::Sockets(sock0, sock1) && (sockets_of(
            start_after(devpath, events),
        ) matches Some((first, second)) && first == sock0 && (second matches Some(s) ==> s
            == sock1)),
    decreases events.len(),
{
    let shorter = events.drop_last();
    assert(shorter =~= events.take(events.len() - 1));
    if sockets_of(start_after(devpath, shorter)) is Some {
        let i = sockets_entry(devpath, shorter);
        assert(shorter.take(i) =~= events.take(i));
        i
    } else {
        sockets_are_seqpacket(devpath, shorter);
        events.len() - 1
    }
}

/// No other kind of sockets is ever asked for.
proof fn sockets_are_seqpacket(devpath: &str, events: Seq<StartEvent>)
    ensures
        start_after(devpath, events) matches StartState::MakeSockets { kind } ==> kind
            == SocketKind::UnixSeqPacket,
    decreases events.len(),
{
    if events.len() > 0 {
        sockets_are_seqpacket(devpath, events.drop_last());
    }
}

/// The answer that a state knows its child process from.
proof fn child_entry(devpath: &str, events: Seq<StartEvent>) -> (i: int)
    requires
        child_of(start_after(devpath, events)) is Some,
    ensures
        0 <= i < events.len(),
        events[i] == StartEvent::ForkedChild(child_of(start_after(devpath, events))->0),
        start_after(devpath, events.take(i)) is Fork,
    decreases events.len(),
{
    let shorter = events.drop_last();
    assert(shorter =~= events.take(events.len() - 1));
    if child_of(start_after(devpath, shorter)) is Some {
        let i = child_entry(devpath, shorter);
        assert(shorter.take(i) =~= events.take(i));
        i
    } else {
        events.len() - 1
    }
}

/// Whether the answer at `i` is a pair of these sockets, of the kind that keeps messages whole and
/// in order.
pub open spec fn made_sockets(
    devpath: &str,
    events: Seq<StartEvent>,
    i: int,
    sock0: i32,
    sock1: i32,
) -> bool {
    &&& 0 <= i < events.len()
    &&& start_after(devpath, events.take(i)) == (StartState::MakeSockets {
        kind: SocketKind::UnixSeqPacket,
    })
    &&& events[i] == StartEvent::Sockets(sock0, sock1)
}

/// A start that ended well holds the first socket of the pair that was made, and the process that
/// was forked.
pub proof fn started_is_connected(devpath: &str, events: Seq<StartEvent>)
    requires
        start_after(devpath, events) is Started,
    ensures
        start_after(devpath, events) matches StartState::Started(devmgr) && (exists|
            i: int,
            sock1: i32,
        |
            made_sockets(devpath, events, i, devmgr.fd, sock1)) && events.contains(
            StartEvent::ForkedChild(devmgr.pid),
        ),
{
    let i = sockets_entry(devpath, events);
    let j = child_entry(devpath, events);
    assert(events[j] == events[j]);
    if let StartState::Started(devmgr) = start_after(devpath, events) {
        if let StartEvent::Sockets(sock0, sock1) = events[i] {
            assert(made_sockets(devpath, events, i, devmgr.fd, sock1));
        }
    }
}

/// The child serves the second socket of the pair that was made, with the device directory that
/// the start was for.
pub proof fn child_is_connected(devpath: &str, events: Seq<StartEvent>)
    requires
        start_after(devpath, events) is Serve,
    ensures
        start_after(devpath, events) matches StartState::Serve { close, sock, devpath: served }
            && served == devpath && exists|i: int| made_sockets(devpath, events, i, close, sock),
{
    let i = sockets_entry(devpath, events);
    child_serves_devpath(devpath, events);
    if let StartState::Serve { close, sock, .. } = start_after(devpath, events) {
        assert(made_sockets(devpath, events, i, close, sock));
    }
}

/// A child that serves has the device directory.
proof fn child_serves_devpath(devpath: &str, events: Seq<StartEvent>)
    ensures
        start_after(devpath, events) matches StartState::Serve { devpath: served, .. } ==> served
            == devpath,
    decreases events.len(),
{
    if events.len() > 0 {
        child_serves_devpath(devpath, events.drop_last());
    }
}

/// A start that ended, well or not, stays as it ended.
pub proof fn start_ends_once(devpath: &str, state: StartState, event: StartEvent)
    requires
        state is Started || state is Serve || state is Failed,
    ensures
        next_start(devpath, state, event) == state,
{
}

/// A request is received as it was made: the device manager opens exactly the path that was asked
/// for, where that path fits a message, holds no NUL and starts with the device directory.
pub proof fn request_is_served(devpath: Seq<char>, path: Seq<char>, step: ServerStep)
    requires
        encode_utf8(path).len() < PATH_MAX,
        !encode_utf8(path).contains(0),
        is_server_step(
            devpath,
            Some(
                unwire(
                    wire(
                        MsgModel {
                            path: written_path(blank(MsgType::Open).path, encode_utf8(path)),
                            ..blank(MsgType::Open)
                        },
                    ),
                ),
            ),
            step,
        ),
    ensures
        devpath.is_prefix_of(path) ==> (step matches ServerStep::Open { path: p, flags } && p@
            == path && flags == device_flags()),
        !devpath.is_prefix_of(path) ==> (step matches ServerStep::Refuse { report, status }
            && report@ == refusal_report(path) && status == 1),
{
    let field = blank(MsgType::Open).path;
    path_is_read_back(field, path);
    let m = MsgModel { path: written_path(field, encode_utf8(path)), ..blank(MsgType::Open) };
    received_is_sent(m);
}

/// The request to stop is answered in kind, and the device manager then exits well.
pub proof fn end_is_served(devpath: Seq<char>, step: ServerStep)
    requires
        is_server_step(devpath, Some(unwire(wire(blank(MsgType::End)))), step),
    ensures
        step matches ServerStep::Reply { reply, status } && unwire(reply.bytes@) == blank(
            MsgType::End,
        ) && status == 0,
{
    received_is_sent(blank(MsgType::End));
}

/// What a request gives is what the device manager's `open` call gave: a descriptor where that
/// call succeeded and the descriptor `received` arrived, its error number where it failed.
pub proof fn reply_is_understood(fd: i32, os_error: Option<i32>, received: Option<i32>)
    requires
        received is Some <==> opened(fd) is Some,
    ensures
        fd >= 0 ==> reply_result(unwire(wire(errno_reply(open_errno(fd, os_error)))), received)
            == Ok::<i32, OpenError>(received->0),
        fd < 0 && open_errno(fd, os_error) != 0 ==> reply_result(
            unwire(wire(errno_reply(open_errno(fd, os_error)))),
            received,
        ) == Err::<i32, OpenError>(OpenError::Errno(open_errno(fd, os_error))),
        fd < 0 ==> reply_result(unwire(wire(errno_reply(open_errno(fd, os_error)))), received) is Err,
{
    let errno = open_errno(fd, os_error);
    errno_is_read_back(errno);
    received_is_sent(errno_reply(errno));
}

/// A reply is waited for at most as often as [`OPEN_ATTEMPTS`] says: each failure counts, and the
/// last one gives its error.
pub proof fn attempts_are_bounded(failed: u32, errno: i32)
    requires
        failed < OPEN_ATTEMPTS,
    ensures
        match after_failed_receive(failed, errno) {
            OpenStep::Retry(n) => n == failed + 1 && n < OPEN_ATTEMPTS,
            OpenStep::Done(result) => failed + 1 == OPEN_ATTEMPTS && result == Err::<i32, OpenError>(
                OpenError::Socket(errno),
            ),
        },
{
}

/// A start in which every call succeeds, but for the attempt to become root again, ends with the
/// first socket and the child; and the child serves the second socket, with the device directory.
pub proof fn good_answers_start_the_device_manager(
    devpath: &str,
    sock0: i32,
    sock1: i32,
    child: i32,
    errno: i32,
)
    ensures
        start_after(
            devpath,
            seq![
                StartEvent::EffectiveUser(0),
                StartEvent::Sockets(sock0, sock1),
                StartEvent::ForkedChild(child),
                StartEvent::Succeeded,
                StartEvent::Succeeded,
                StartEvent::Succeeded,
                StartEvent::Failed(errno),
            ],
        ) == StartState::Started(DevMgr { fd: sock0, pid: child }),
        start_after(
            devpath,
            seq![
                StartEvent::EffectiveUser(0),
                StartEvent::Sockets(sock0, sock1),
                StartEvent::InChild,
            ],
        ) == (StartState::Serve { close: sock0, sock: sock1, devpath }),
{
    let user = StartEvent::EffectiveUser(0);
    let sockets = StartEvent::Sockets(sock0, sock1);
    let forked = StartEvent::ForkedChild(child);
    let done = StartEvent::Succeeded;
    let e0 = Seq::<StartEvent>::empty();
    let e1 = e0.push(user);
    let e2 = e1.push(sockets);
    let e3 = e2.push(forked);
    let e4 = e3.push(done);
    let e5 = e4.push(done);
    let e6 = e5.push(done);
    let e7 = e6.push(StartEvent::Failed(errno));
    let c3 = e2.push(StartEvent::InChild);
    assert(e1.drop_last() =~= e0 && e2.drop_last() =~= e1 && e3.drop_last() =~= e2);
    assert(e4.drop_last() =~= e3 && e5.drop_last() =~= e4 && e6.drop_last() =~= e5);
    assert(e7.drop_last() =~= e6 && c3.drop_last() =~= e2);
    assert(start_after(devpath, e0) is CheckUser);
    assert(start_after(devpath, e1) is MakeSockets);
    assert(start_after(devpath, e2) == (StartState::Fork { sock0, sock1 }));
    assert(start_after(devpath, e3) == (StartState::CloseChildSocket { sock0, sock1, child }));
    assert(start_after(devpath, e4) == (StartState::DropGroup { sock0, child }));
    assert(start_after(devpath, e5) == (StartState::DropUser { sock0, child }));
    assert(start_after(devpath, e6) == (StartState::ProbeRoot { sock0, child }));
    assert(e7 =~= seq![user, sockets, forked, done, done, done, StartEvent::Failed(errno)]);
    assert(c3 =~= seq![user, sockets, StartEvent::InChild]);
}

/// A system call that fails ends the start with its error number, except for the attempt to become
/// root again, which has to fail; and nobody but root gets past the first question.
pub proof fn failures_end_the_start(devpath: &str, state: StartState, errno: i32, user: u32)
    ensures
        state is MakeSockets || state is Fork || state is CloseChildSocket || state is DropGroup
            || state is DropUser ==> next_start(devpath, state, StartEvent::Failed(errno))
            == StartState::Failed(StartError::System(errno)),
        state is ProbeRoot ==> next_start(devpath, state, StartEvent::Succeeded)
            == StartState::Failed(StartError::RootKept),
        state is CheckUser && user != 0 ==> next_start(
            devpath,
            state,
            StartEvent::EffectiveUser(user),
        ) == StartState::Failed(StartError::NotSetuid),
{
}

/// The device manager never opens a file that is not in its directory, nor for anything but
/// reading, and it stops at the first attempt at one.
pub proof fn only_devices_are_opened(devpath: Seq<char>, m: MsgModel, step: ServerStep)
    requires
        is_server_step(devpath, Some(m), step),
    ensures
        step matches ServerStep::Open { path, flags } ==> {
            &&& m.msg_type == 0
            &&& devpath.is_prefix_of(path@) && path@ == path_text(m.path)
            &&& flags.access == Access::ReadOnly && !flags.create && !flags.exclusive
            &&& flags.close_on_exec && flags.no_controlling_terminal && flags.nonblocking
        },
        m.msg_type == 0 && !devpath.is_prefix_of(path_text(m.path)) ==> (
        step matches ServerStep::Refuse { report, status } && status == 1 && report@
            == "devmgr: Attempted path traversal: "@ + path_text(m.path)),
        m.msg_type == 0 && devpath.is_prefix_of(path_text(m.path)) ==> step is Open,
        m.msg_type == 1 ==> step is Reply,
        m.msg_type > 1 ==> step == ServerStep::Exit(1),
{
}

/// The reply to a failed `open` call carries the system's error number, or 1 where it has none; the
/// reply to one that succeeded carries none, and the descriptor.
pub proof fn reply_tells_what_happened(fd: i32, errno: i32)
    ensures
        fd >= 0 ==> open_errno(fd, Some(errno)) == 0 && open_errno(fd, None) == 0 && opened(fd)
            == Some(fd),
        fd < 0 ==> open_errno(fd, Some(errno)) == errno && open_errno(fd, None) == 1 && opened(
            fd,
        ) is None,
{
}

} // verus!
