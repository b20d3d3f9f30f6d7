use wl_showkeys::message::{recv_msg, send_msg, ControlMessage, Msg, MsgType, MSG_LEN, PATH_MAX};

#[test]
fn message_types_have_codes() {
    assert_eq!(MsgType::from_u8(0), Some(MsgType::Open));
    assert_eq!(MsgType::from_u8(1), Some(MsgType::End));
    assert_eq!(MsgType::from_u8(2), None);
    assert_eq!(MsgType::from_u8(255), None);
    assert_eq!(MsgType::Open.to_u8(), 0);
    assert_eq!(MsgType::End.to_u8(), 1);
}

#[test]
fn new_message_is_blank() {
    let msg = Msg::new(MsgType::End);
    assert_eq!(msg.msg_type, 1);
    assert!(msg.path.iter().all(|&b| b == 0));
    assert_eq!(msg.get_path(), "");
}

#[test]
fn path_is_read_back() {
    let mut msg = Msg::new(MsgType::Open);
    msg.set_path("/dev/input/event3");
    assert_eq!(msg.get_path(), "/dev/input/event3");
    assert_eq!(&msg.path[..6], b"/dev/i");
    msg.set_path("/dev/é");
    assert_eq!(msg.get_path(), "/dev/é");
}

#[test]
fn shorter_path_hides_longer_one() {
    let mut msg = Msg::new(MsgType::Open);
    msg.set_path("abcdef");
    msg.set_path("xy");
    assert_eq!(msg.get_path(), "xy");
    assert_eq!(&msg.path[..7], b"xy\0def\0");
}

#[test]
fn long_path_is_cut_off() {
    let mut msg = Msg::new(MsgType::Open);
    let long = "a".repeat(PATH_MAX + 10);
    msg.set_path(&long);
    assert_eq!(msg.get_path().len(), PATH_MAX - 1);
    assert_eq!(msg.path[PATH_MAX - 1], 0);
}

#[test]
fn path_cut_inside_a_character_is_empty() {
    let mut msg = Msg::new(MsgType::Open);
    let long = "é".repeat(PATH_MAX / 2);
    assert_eq!(long.len(), PATH_MAX);
    msg.set_path(&long);
    assert_eq!(msg.get_path(), "");
}

#[test]
fn path_ends_at_its_first_nul() {
    let mut msg = Msg::new(MsgType::Open);
    msg.set_path("/dev\0/input");
    assert_eq!(msg.get_path(), "/dev");
}

#[test]
fn path_without_nul_fills_the_field() {
    let bytes = vec![b'x'; MSG_LEN];
    let msg = Msg::from_bytes(&bytes);
    assert_eq!(msg.get_path().len(), PATH_MAX);
}

#[test]
fn path_of_invalid_utf8_is_empty() {
    let msg = Msg::from_bytes(&[0, 0x2f, 0xff, 0x2f]);
    assert_eq!(msg.get_path(), "");
}

#[test]
fn messages_survive_the_wire() {
    let mut msg = Msg::new(MsgType::Open);
    msg.set_path("/dev/input/event0");
    let out = send_msg(Some(7), &msg);
    assert_eq!(out.bytes.len(), MSG_LEN);
    assert_eq!(out.bytes[0], 0);
    let (received, fd) = recv_msg(&out.bytes, Some(&out.control));
    assert_eq!(received.msg_type, msg.msg_type);
    assert_eq!(received.path, msg.path);
    assert_eq!(fd, Some(7));
}

#[test]
fn no_descriptor_is_sent_without_one() {
    let out = send_msg(None, &Msg::new(MsgType::End));
    assert_eq!(out.bytes[0], 1);
    assert!(out.control.is_empty());
    let (_, fd) = recv_msg(&out.bytes, Some(&out.control));
    assert_eq!(fd, None);
}

#[test]
fn nothing_received_is_a_blank_request() {
    let (msg, fd) = recv_msg(&[], None);
    assert_eq!(msg.msg_type, 0);
    assert_eq!(msg.get_path(), "");
    assert_eq!(fd, None);
}

#[test]
fn last_descriptor_counts() {
    let control = vec![
        ControlMessage::ScmRights(vec![3, 4]),
        ControlMessage::Other,
        ControlMessage::ScmRights(vec![5, 6]),
        ControlMessage::ScmRights(vec![]),
    ];
    let (_, fd) = recv_msg(&[1], Some(&control));
    assert_eq!(fd, Some(5));
}

#[test]
fn error_numbers_survive_the_wire() {
    for errno in [0, 1, 2, 13, 255, 256, 65536, i32::MAX, -1, i32::MIN] {
        let msg = Msg::from_errno(errno);
        assert_eq!(msg.msg_type, 0);
        assert_eq!(msg.errno(), errno);
        assert_eq!(&msg.path[..4], &errno.to_ne_bytes()[..]);
        assert!(msg.path[4..].iter().all(|&b| b == 0));
    }
}

#[test]
fn error_number_has_the_byte_order_of_the_machine() {
    let mut bytes = vec![0u8];
    bytes.extend_from_slice(&0x0102_0304i32.to_ne_bytes());
    assert_eq!(Msg::from_bytes(&bytes).errno(), 0x0102_0304);
}
