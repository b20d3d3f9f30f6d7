//! The messages between the display process and the privileged device manager.
//!
//! A message is one type byte and a path field of fixed length. A request to open a device names
//! it in the path field, NUL-terminated; the reply holds an error number in the field's first
//! four bytes, in the byte order of the machine, and the descriptor travels beside the message.

use crate::text::{nul_index, nul_index_is, nul_terminated_text, text_before_nul};
use vstd::endian::{endianness, Endian};
use vstd::prelude::*;
use vstd::utf8::{encode_utf8, encode_utf8_decode_utf8, encode_utf8_valid_utf8};

verus! {

/// The length of a message's path field.
pub const PATH_MAX: usize = 4096;

/// The length of a whole message.
pub const MSG_LEN: usize = 4097;

/// What a message is about.
#[derive(Debug, Clone, Copy, PartialEq, Eq, Structural)]
pub enum MsgType {
    /// Open a device, or the reply to that request.
    Open,
    /// Stop the device manager, or the reply to that request.
    End,
}

impl MsgType {
    /// The type byte on the wire.
    pub open spec fn code(self) -> u8 {
        match self {
            MsgType::Open => 0,
            MsgType::End => 1,
        }
    }

    /// The type byte on the wire.
    pub fn to_u8(self) -> (r: u8)
        ensures
            r == self.code(),
            self == MsgType::Open ==> r == 0,
            self == MsgType::End ==> r == 1,
    {
        match self {
            MsgType::Open => 0,
            MsgType::End => 1,
        }
    }

    /// The message type of a type byte, if there is one.
    pub fn from_u8(val: u8) -> (r: Option<Self>)
        ensures
            val == 0 ==> r == Some(MsgType::Open),
            val == 1 ==> r == Some(MsgType::End),
            val > 1 ==> r is None,
    {
        match val {
            0 => Some(MsgType::Open),
            1 => Some(MsgType::End),
            _ => None,
        }
    }
}

/// A message as it stands in memory and on the wire.
pub struct Msg {
    pub msg_type: u8,
    pub path: [u8; PATH_MAX],
}

/// What a message holds.
#[verifier::ext_equal]
pub struct MsgModel {
    pub msg_type: u8,
    pub path: Seq<u8>,
}

impl View for Msg {
    type V = MsgModel;

    open spec fn view(&self) -> MsgModel {
        MsgModel { msg_type: self.msg_type, path: self.path@ }
    }
}

/// A message with nothing but zeros in its path field.
pub open spec fn blank(msg_type: MsgType) -> MsgModel {
    MsgModel { msg_type: msg_type.code(), path: Seq::new(PATH_MAX as nat, |i: int| 0u8) }
}

/// A path field after `bytes` were written to it: as many of them as leave room for a NUL, then
/// that NUL, then what stood there before.
pub open spec fn written_path(field: Seq<u8>, bytes: Seq<u8>) -> Seq<u8> {
    let n = if bytes.len() < PATH_MAX {
        bytes.len() as int
    } else {
        PATH_MAX - 1
    };
    bytes.take(n).push(0) + field.skip(n + 1)
}

/// The text that a path field names: empty where it is not valid UTF-8.
pub open spec fn path_text(field: Seq<u8>) -> Seq<char> {
    match nul_terminated_text(field) {
        Some(text) => text,
        None => Seq::empty(),
    }
}

/// The bytes of a message on the wire.
pub open spec fn wire(m: MsgModel) -> Seq<u8> {
    seq![m.msg_type] + m.path
}

/// The message that a receiver sees after `bytes` arrived in a buffer that held a blank request.
pub open spec fn unwire(bytes: Seq<u8>) -> MsgModel {
    MsgModel {
        msg_type: if bytes.len() > 0 {
            bytes[0]
        } else {
            MsgType::Open.code()
        },
        path: Seq::new(
            PATH_MAX as nat,
            |i: int|
                if i + 1 < bytes.len() {
                    bytes[i + 1]
                } else {
                    0u8
                },
        ),
    }
}

impl Msg {
    /// A message with an empty path field.
    pub fn new(msg_type: MsgType) -> (r: Self)
        ensures
            r@ == blank(msg_type),
            forall|i: int| 0 <= i < 4096 ==> #[trigger] r.path@[i] == 0,
            msg_type == MsgType::Open ==> r.msg_type == 0,
            msg_type == MsgType::End ==> r.msg_type == 1,
    {
        let r = Msg { msg_type: msg_type.to_u8(), path: [0;PATH_MAX] };
        assert(r.path@ =~= blank(msg_type).path);
        r
    }

    /// Writes `path` into the path field, cut off where the field ends.
    pub fn set_path(&mut self, path: &str)
        ensures
            final(self).msg_type == old(self).msg_type,
            final(self).path@ == written_path(old(self).path@, encode_utf8(path@)),
            forall|i: int|
                0 <= i < encode_utf8(path@).len() && i < 4095 ==> #[trigger] final(self).path@[i]
                    == encode_utf8(path@)[i],
            encode_utf8(path@).len() < 4096 ==> final(self).path@[encode_utf8(path@).len() as int]
                == 0,
            encode_utf8(path@).len() >= 4096 ==> final(self).path@[4095] == 0,
            forall|i: int|
                encode_utf8(path@).len() < i < 4096 ==> #[trigger] final(self).path@[i] == old(self).path@[i],
    {
        let bytes = path.as_bytes();
        let len: usize = if bytes.len() < PATH_MAX {
            bytes.len()
        } else {
            PATH_MAX - 1
        };
        let ghost before = self.path@;
        let mut i: usize = 0;
        while i < len
            invariant
                i <= len <= bytes.len(),
                len < PATH_MAX,
                bytes@ == encode_utf8(path@),
                self.msg_type == old(self).msg_type,
                before == old(self).path@,
                self.path@ =~= bytes@.take(i as int) + before.skip(i as int),
            decreases len - i,
        {
            self.path[i] = bytes[i];
            i += 1;
        }
        self.path[len] = 0;
        assert(self.path@ =~= written_path(before, bytes@));
    }

    /// The text that the path field names: empty where it is not valid UTF-8.
    pub fn get_path(&self) -> (r: &str)
        ensures
            r@ == path_text(self.path@),
            r@.len() > 0 ==> {
                let text = encode_utf8(r@);
                &&& text.len() <= 4096
                &&& self.path@.take(text.len() as int) == text
                &&& !text.contains(0)
                &&& text.len() < 4096 ==> self.path@[text.len() as int] == 0
            },
    {
        match text_before_nul(self.path.as_slice()) {
            Some(text) => text,
            None => {
                proof {
                    reveal_strlit("");
                    assert(""@ =~= Seq::<char>::empty());
                }
                ""
            },
        }
    }

    /// The message as it goes out on the wire.
    pub fn to_bytes(&self) -> (r: Vec<u8>)
        ensures
            r@ == wire(self@),
            r@.len() == 4097,
            r@[0] == self.msg_type,
            forall|i: int| 1 <= i < 4097 ==> #[trigger] r@[i] == self.path@[i - 1],
    {
        let mut r: Vec<u8> = Vec::new();
        r.push(self.msg_type);
        let mut i: usize = 0;
        while i < PATH_MAX
            invariant
                i <= PATH_MAX,
                r@ =~= seq![self.msg_type] + self.path@.take(i as int),
            decreases PATH_MAX - i,
        {
            r.push(self.path[i]);
            i += 1;
        }
        r
    }

    /// The message that `bytes` make when they arrive: what is missing reads as in a blank
    /// request, and what is over is dropped.
    pub fn from_bytes(bytes: &[u8]) -> (r: Self)
        ensures
            r@ == unwire(bytes@),
            bytes@.len() > 0 ==> r.msg_type == bytes@[0],
            bytes@.len() == 0 ==> r.msg_type == 0,
            forall|i: int|
                0 <= i < 4096 && i + 1 < bytes@.len() ==> #[trigger] r.path@[i] == bytes@[i + 1],
            forall|i: int|
                0 <= i < 4096 && i + 1 >= bytes@.len() ==> #[trigger] r.path@[i] == 0,
    {
        let mut r = Msg::new(MsgType::Open);
        if bytes.len() > 0 {
            r.msg_type = bytes[0];
        }
        let mut i: usize = 0;
        while i < PATH_MAX && i + 1 < bytes.len()
            invariant
                i <= PATH_MAX,
                i <= bytes.len(),
                r.msg_type == unwire(bytes@).msg_type,
                forall|j: int| 0 <= j < i ==> r.path@[j] == unwire(bytes@).path[j],
                forall|j: int| i <= j < PATH_MAX ==> r.path@[j] == 0,
            decreases PATH_MAX - i,
        {
            r.path[i] = bytes[i + 1];
            i += 1;
        }
        assert(r.path@ =~= unwire(bytes@).path);
        r
    }
}

/// The four bytes of a 32-bit number in two's complement.
pub open spec fn i32_bytes(value: i32, order: Endian) -> Seq<u8> {
    let n = if value >= 0 {
        value as int
    } else {
        value + 0x1_0000_0000
    };
    let little = seq![
        (n % 0x100) as u8,
        (n / 0x100 % 0x100) as u8,
        (n / 0x1_0000 % 0x100) as u8,
        (n / 0x100_0000 % 0x100) as u8,
    ];
    match order {
        Endian::Little => little,
        Endian::Big => little.reverse(),
    }
}

/// The 32-bit number that four bytes hold in two's complement.
pub open spec fn i32_value(bytes: Seq<u8>, order: Endian) -> int {
    let little = match order {
        Endian::Little => bytes,
        Endian::Big => bytes.reverse(),
    };
    let n = little[0] + 0x100 * little[1] + 0x1_0000 * little[2] + 0x100_0000 * little[3];
    if n < 0x8000_0000 {
        n
    } else {
        n - 0x1_0000_0000
    }
}

/// Calls `i32::to_ne_bytes`: the number in two's complement, in the byte order of the machine.
#[verifier::external_body]
fn i32_to_ne_bytes(value: i32) -> (r: [u8; 4])
    ensures
        r@ == i32_bytes(value, endianness()),
{
    value.to_ne_bytes()
}

/// Calls `i32::from_ne_bytes`: the number that the bytes hold in two's complement, in the byte
/// order of the machine.
#[verifier::external_body]
fn i32_from_ne_bytes(bytes: [u8; 4]) -> (r: i32)
    ensures
        r == i32_value(bytes@, endianness()),
{
    i32::from_ne_bytes(bytes)
}

/// The reply to a request to open a device, with its error number.
pub open spec fn errno_reply(errno: i32) -> MsgModel {
    let reply = blank(MsgType::Open);
    MsgModel { path: i32_bytes(errno, endianness()) + reply.path.skip(4), ..reply }
}

/// The error number that a reply holds.
pub open spec fn reply_errno(m: MsgModel) -> int {
    i32_value(m.path.take(4), endianness())
}

impl Msg {
    /// The reply to a request to open a device, with its error number.
    pub fn from_errno(errno: i32) -> (r: Self)
        ensures
            r@ == errno_reply(errno),
            r.msg_type == 0,
            i32_value(r.path@.take(4), endianness()) == errno,
            forall|i: int| 4 <= i < 4096 ==> #[trigger] r.path@[i] == 0,
    {
        let mut r = Msg::new(MsgType::Open);
        let bytes = i32_to_ne_bytes(errno);
        r.path[0] = bytes[0];
        r.path[1] = bytes[1];
        r.path[2] = bytes[2];
        r.path[3] = bytes[3];
        assert(r.path@ =~= errno_reply(errno).path);
        proof {
            errno_is_read_back(errno);
        }
        r
    }

    /// The error number that a reply holds.
    pub fn errno(&self) -> (r: i32)
        ensures
            r == reply_errno(self@),
    {
        let bytes: [u8; 4] = [self.path[0], self.path[1], self.path[2], self.path[3]];
        assert(bytes@ =~= self.path@.take(4));
        i32_from_ne_bytes(bytes)
    }
}

/// A piece of control data that travels beside a message.
pub enum ControlMessage {
    /// File descriptors.
    ScmRights(Vec<i32>),
    /// Control data of another kind.
    Other,
}

/// The descriptor that control data holds: the first one of the last piece with any.
pub open spec fn descriptor_of(control: Seq<ControlMessage>) -> Option<i32>
    decreases control.len(),
{
    if control.len() == 0 {
        None
    } else {
        match control.last() {
            ControlMessage::ScmRights(fds) if fds@.len() > 0 => Some(fds@[0]),
            _ => descriptor_of(control.drop_last()),
        }
    }
}

/// The first descriptor of one piece of control data.
pub open spec fn first_descriptor(piece: ControlMessage) -> Option<i32> {
    match piece {
        ControlMessage::ScmRights(fds) => if fds@.len() > 0 {
            Some(fds@[0])
        } else {
            None
        },
        ControlMessage::Other => None,
    }
}

/// The descriptor that is taken stands first in its piece of control data, and no later piece has
/// any; none is taken only where no piece has one.
pub proof fn last_descriptor_counts(control: Seq<ControlMessage>)
    ensures
        match descriptor_of(control) {
            Some(fd) => exists|i: int|
                {
                    &&& 0 <= i < control.len()
                    &&& #[trigger] first_descriptor(control[i]) == Some(fd)
                    &&& forall|j: int|
                        i < j < control.len() ==> #[trigger] first_descriptor(control[j]) is None
                },
            None => forall|j: int|
                0 <= j < control.len() ==> #[trigger] first_descriptor(control[j]) is None,
        },
    decreases control.len(),
{
    if control.len() > 0 {
        let n = control.len() - 1;
        let shorter = control.drop_last();
        last_descriptor_counts(shorter);
        assert forall|j: int| 0 <= j < n implies shorter[j] == control[j] by {}
        if first_descriptor(control[n]) is None {
            match descriptor_of(shorter) {
                Some(fd) => {
                    let i = choose|i: int|
                        {
                            &&& 0 <= i < n
                            &&& #[trigger] first_descriptor(shorter[i]) == Some(fd)
                            &&& forall|j: int|
                                i < j < n ==> #[trigger] first_descriptor(shorter[j]) is None
                        };
                    assert(first_descriptor(control[i]) == Some(fd));
                    assert forall|j: int| i < j < control.len() implies #[trigger] first_descriptor(
                        control[j],
                    ) is None by {
                        if j < n {
                            assert(first_descriptor(shorter[j]) is None);
                        }
                    }
                },
                None => {
                    assert forall|j: int| 0 <= j < control.len() implies #[trigger] first_descriptor(
                        control[j],
                    ) is None by {
                        if j < n {
                            assert(first_descriptor(shorter[j]) is None);
                        }
                    }
                },
            }
        } else {
            assert(first_descriptor(control[n]) == descriptor_of(control));
        }
    }
}

/// Control data with at most one descriptor in it.
pub open spec fn control_with(control: Seq<ControlMessage>, fd: Option<i32>) -> bool {
    match fd {
        Some(fd) => control.len() == 1 && (control[0] matches ControlMessage::ScmRights(fds)
            && fds@ == seq![fd]),
        None => control.len() == 0,
    }
}

/// What goes into a socket in one piece.
pub struct Outgoing {
    pub bytes: Vec<u8>,
    pub control: Vec<ControlMessage>,
}

/// What to send for a message and the descriptor that goes with it.
pub fn send_msg(fd: Option<i32>, msg: &Msg) -> (r: Outgoing)
    ensures
        r.bytes@ == wire(msg@),
        control_with(r.control@, fd),
        r.bytes@.len() == 4097 && r.bytes@[0] == msg.msg_type,
        forall|i: int| 1 <= i < 4097 ==> #[trigger] r.bytes@[i] == msg.path@[i - 1],
        fd is None ==> r.control@.len() == 0,
        fd is Some ==> r.control@.len() == 1 && (r.control@[0] matches ControlMessage::ScmRights(fds)
            && fds@.len() == 1 && fds@[0] == fd->0),
{
    let mut control: Vec<ControlMessage> = Vec::new();
    if let Some(fd) = fd {
        let mut fds: Vec<i32> = Vec::new();
        fds.push(fd);
        assert(fds@ =~= seq![fd]);
        control.push(ControlMessage::ScmRights(fds));
    }
    Outgoing { bytes: msg.to_bytes(), control }
}

/// The message and the descriptor in what arrived. There is no control data where it could not
/// be read.
pub fn recv_msg(bytes: &[u8], control: Option<&Vec<ControlMessage>>) -> (r: (Msg, Option<i32>))
    ensures
        r.0@ == unwire(bytes@),
        r.1 == (match control {
            Some(control) => descriptor_of(control@),
            None => None,
        }),
        bytes@.len() > 0 ==> r.0.msg_type == bytes@[0],
        forall|i: int|
            0 <= i < 4096 && i + 1 < bytes@.len() ==> #[trigger] r.0.path@[i] == bytes@[i + 1],
        control is None ==> r.1 is None,
        control matches Some(pieces) ==> match r.1 {
            Some(fd) => exists|i: int|
                {
                    &&& 0 <= i < pieces@.len()
                    &&& #[trigger] first_descriptor(pieces@[i]) == Some(fd)
                    &&& forall|j: int|
                        i < j < pieces@.len() ==> #[trigger] first_descriptor(pieces@[j]) is None
                },
            None => forall|j: int|
                0 <= j < pieces@.len() ==> #[trigger] first_descriptor(pieces@[j]) is None,
        },
{
    proof {
        if let Some(pieces) = control {
            last_descriptor_counts(pieces@);
        }
    }
    let mut fd: Option<i32> = None;
    if let Some(control) = control {
        let mut i: usize = 0;
        while i < control.len()
            invariant
                i <= control.len(),
                fd == descriptor_of(control@.take(i as int)),
            decreases control.len() - i,
        {
            assert(control@.take(i + 1).drop_last() =~= control@.take(i as int));
            if let ControlMessage::ScmRights(fds) = &control[i] {
                if !fds.is_empty() {
                    fd = Some(fds[0]);
                }
            }
            i += 1;
        }
        assert(control@.take(control.len() as int) =~= control@);
    }
    (Msg::from_bytes(bytes), fd)
}

/// What arrives of a message is the message.
pub proof fn received_is_sent(m: MsgModel)
    requires
        m.path.len() == PATH_MAX,
    ensures
        wire(m).len() == MSG_LEN,
        unwire(wire(m)) == m,
{
    assert(unwire(wire(m)).path =~= m.path);
}

/// The descriptor that arrives beside a message is the one that was sent, and none arrives where
/// none was sent.
pub proof fn received_descriptor_is_sent(control: Seq<ControlMessage>, fd: Option<i32>)
    requires
        control_with(control, fd),
    ensures
        descriptor_of(control) == fd,
{
}

/// A type byte stands for the type that it was written for.
pub proof fn type_codes_differ(a: MsgType, b: MsgType)
    ensures
        a.code() == b.code() ==> a == b,
{
}

/// A path that fits the field and holds no NUL is read back as it was written, whatever the field
/// held before.
pub proof fn path_is_read_back(field: Seq<u8>, path: Seq<char>)
    requires
        field.len() == PATH_MAX,
        encode_utf8(path).len() < PATH_MAX,
        !encode_utf8(path).contains(0),
    ensures
        path_text(written_path(field, encode_utf8(path))) == path,
{
    let bytes = encode_utf8(path);
    let after = written_path(field, bytes);
    let n = bytes.len();
    assert(bytes.take(n as int) =~= bytes);
    assert forall|i: int| 0 <= i < n implies after[i] != 0 by {
        assert(after[i] == bytes[i]);
    }
    assert(after[n as int] == 0);
    nul_index_is(after, n);
    assert(after.take(n as int) =~= bytes);
    encode_utf8_valid_utf8(path);
    encode_utf8_decode_utf8(path);
}

/// A path field keeps its length, and always ends its path with a NUL.
pub proof fn path_is_terminated(field: Seq<u8>, bytes: Seq<u8>)
    requires
        field.len() == PATH_MAX,
    ensures
        written_path(field, bytes).len() == PATH_MAX,
        nul_index(written_path(field, bytes)) < PATH_MAX,
{
    let after = written_path(field, bytes);
    let n = if bytes.len() < PATH_MAX {
        bytes.len() as int
    } else {
        PATH_MAX - 1
    };
    assert(after[n] == 0);
    nul_index_bounded(after, n);
}

/// The first NUL comes no later than any other.
proof fn nul_index_bounded(bytes: Seq<u8>, i: int)
    requires
        0 <= i < bytes.len(),
        bytes[i] == 0,
    ensures
        nul_index(bytes) <= i,
    decreases bytes.len(),
{
    if bytes[0] != 0 {
        nul_index_bounded(bytes.drop_first(), i - 1);
    }
}

/// An error number is read back from the reply that holds it.
pub proof fn errno_is_read_back(errno: i32)
    ensures
        reply_errno(errno_reply(errno)) == errno,
{
    let reply = errno_reply(errno);
    let bytes = i32_bytes(errno, endianness());
    assert(reply.path.take(4) =~= bytes);
    let n = if errno >= 0 {
        errno as int
    } else {
        errno + 0x1_0000_0000
    };
    let little = i32_bytes(errno, Endian::Little);
    assert(little.reverse().reverse() =~= little);
    assert(n % 0x100 + 0x100 * (n / 0x100 % 0x100) + 0x1_0000 * (n / 0x1_0000 % 0x100) + 0x100_0000
        * (n / 0x100_0000 % 0x100) == n) by {
        assert(n / 0x1_0000 == n / 0x100 / 0x100);
        assert(n / 0x100_0000 == n / 0x1_0000 / 0x100);
        assert(0 <= n / 0x100_0000 < 0x100);
    }
}

/// A message has its type byte first and its path field behind that, byte for byte.
pub proof fn message_stands_in_order(m: MsgModel, i: int)
    requires
        m.path.len() == 4096,
        0 <= i < 4096,
    ensures
        wire(m).len() == 4097,
        wire(m)[0] == m.msg_type,
        wire(m)[i + 1] == m.path[i],
        blank(MsgType::Open).msg_type == 0,
        blank(MsgType::End).msg_type == 1,
        blank(MsgType::Open).path[i] == 0 && blank(MsgType::End).path[i] == 0,
{
}

/// Of a message that arrived in part, what is missing reads as zeros.
pub proof fn missing_bytes_are_zeros(bytes: Seq<u8>, i: int)
    requires
        0 <= i < 4096,
    ensures
        bytes.len() > 0 ==> unwire(bytes).msg_type == bytes[0],
        bytes.len() == 0 ==> unwire(bytes).msg_type == 0,
        unwire(bytes).path.len() == 4096,
        unwire(bytes).path[i] == if i + 1 < bytes.len() {
            bytes[i + 1]
        } else {
            0
        },
{
}

/// A path that does not fit is cut off so that a NUL still stands behind it; of a shorter one
/// every byte is there, with a NUL behind it, and what follows that is left alone.
pub proof fn path_is_cut_off(field: Seq<u8>, bytes: Seq<u8>, i: int)
    requires
        field.len() == 4096,
        0 <= i < 4096,
    ensures
        i < bytes.len() && i < 4095 ==> written_path(field, bytes)[i] == bytes[i],
        i == bytes.len() || (i == 4095 && bytes.len() > 4095) ==> written_path(field, bytes)[i] == 0,
        i > bytes.len() ==> written_path(field, bytes)[i] == field[i],
{
}

} // verus!
