use rcon::connection::{next_packet_id, Login, Reply, Step};
use rcon::packet::{Packet, PacketType};
use rcon::{Connection, Error};

fn reply_frame(id: i32, body: &str) -> Vec<u8> {
    let mut w = Vec::new();
    Packet::new(id, PacketType::ResponseValue, body.to_string()).serialize(&mut w);
    w
}

fn request_frame(id: i32, ptype: PacketType, body: &str) -> Vec<u8> {
    let mut w = Vec::new();
    Packet::new(id, ptype, body.to_string()).serialize(&mut w);
    w
}

fn login() -> Login {
    Connection::connect("secret").0
}

fn session() -> Connection {
    login().auth(&reply_frame(1, "")).unwrap()
}

fn more(step: Step) -> Reply {
    match step {
        Step::More(reply) => reply,
        Step::Done(text) => panic!("complete too early, with {:?}", text),
    }
}

fn done(step: Step) -> String {
    match step {
        Step::Done(text) => text,
        Step::More(_) => panic!("not complete"),
    }
}

#[test]
fn connect_sends_the_password_under_id_one() {
    let (_, bytes) = Connection::connect("secret");
    assert_eq!(bytes, request_frame(1, PacketType::Auth, "secret"));
    assert_eq!(
        bytes,
        vec![16, 0, 0, 0, 1, 0, 0, 0, 3, 0, 0, 0, b's', b'e', b'c', b'r', b'e', b't', 0, 0]
    );
}

#[test]
fn auth_accepts_any_id_but_minus_one() {
    for id in [1, 0, 2, -2, i32::MAX, i32::MIN] {
        assert!(login().auth(&reply_frame(id, "")).is_ok());
    }
    let echoed = request_frame(1, PacketType::ExecCommand, "");
    assert!(login().auth(&echoed).is_ok());
}

#[test]
fn connect_then_auth_fail() {
    let (login, bytes) = Connection::connect("wrong");
    assert_eq!(bytes, request_frame(1, PacketType::Auth, "wrong"));
    let result = login.auth(&reply_frame(-1, ""));
    assert!(matches!(result, Err(Error::Auth)));
}

#[test]
fn auth_fails_as_io_on_what_is_no_frame() {
    assert!(matches!(login().auth(&[]), Err(Error::Io(_))));
    assert!(matches!(login().auth(&[10, 0, 0, 0, 1]), Err(Error::Io(_))));
    let mut long = reply_frame(1, "");
    long.push(0);
    assert!(matches!(login().auth(&long), Err(Error::Io(_))));
    let refused_but_cut = &reply_frame(-1, "")[..13];
    assert!(matches!(login().auth(refused_but_cut), Err(Error::Io(_))));
}

#[test]
fn ids_count_up_from_one() {
    let mut conn = session();
    for expected in 2..200 {
        let (id, bytes) = conn.cmd("list").unwrap();
        assert_eq!(id, expected);
        assert_eq!(bytes, request_frame(expected, PacketType::ExecCommand, "list"));
    }
}

#[test]
fn ids_wrap_to_one() {
    assert_eq!(next_packet_id(1), 2);
    assert_eq!(next_packet_id(2), 3);
    assert_eq!(next_packet_id(i32::MAX - 1), i32::MAX);
    assert_eq!(next_packet_id(i32::MAX), 1);
}

#[test]
fn cmd_returns_the_command_frame() {
    let mut conn = session();
    let (id, bytes) = conn.cmd("say hi").unwrap();
    assert_eq!(id, 2);
    assert_eq!(
        bytes,
        vec![16, 0, 0, 0, 2, 0, 0, 0, 2, 0, 0, 0, b's', b'a', b'y', b' ', b'h', b'i', 0, 0]
    );
}

#[test]
fn length_guard_of_cmd() {
    let mut conn = session();
    let longest = "a".repeat(1413);
    let (id, bytes) = conn.cmd(&longest).unwrap();
    assert_eq!(id, 2);
    assert_eq!(bytes.len(), 14 + 1413);
    let too_long = "a".repeat(1414);
    assert!(matches!(conn.cmd(&too_long), Err(Error::CommandTooLong)));
    let (id, _) = conn.cmd("").unwrap();
    assert_eq!(id, 3);
}

#[test]
fn length_guard_of_response() {
    let mut conn = session();
    let too_long = "a".repeat(1414);
    assert!(matches!(conn.response(&too_long), Err(Error::CommandTooLong)));
    let longest = "a".repeat(1413);
    let (_, bytes) = conn.response(&longest).unwrap();
    assert_eq!(bytes.len(), 14 + 1413 + 14);
    let (id, _) = conn.cmd("").unwrap();
    assert_eq!(id, 4);
}

#[test]
fn length_guard_counts_bytes() {
    let mut conn = session();
    let text = "é".repeat(707);
    assert_eq!(text.len(), 1414);
    assert!(matches!(conn.cmd(&text), Err(Error::CommandTooLong)));
    let text = format!("{}a", "é".repeat(706));
    assert_eq!(text.len(), 1413);
    assert!(conn.cmd(&text).is_ok());
}

#[test]
fn check_len_at_the_limit() {
    assert!(Connection::check_len(0).is_none());
    assert!(Connection::check_len(1413).is_none());
    assert!(matches!(Connection::check_len(1414), Some(Err(Error::CommandTooLong))));
    assert!(matches!(Connection::check_len(usize::MAX), Some(Err(Error::CommandTooLong))));
}

#[test]
fn response_sends_the_command_and_an_empty_one() {
    let mut conn = session();
    let (_, bytes) = conn.response("list").unwrap();
    let mut expected = request_frame(2, PacketType::ExecCommand, "list");
    expected.extend(request_frame(3, PacketType::ExecCommand, ""));
    assert_eq!(bytes, expected);
    let (id, _) = conn.cmd("next").unwrap();
    assert_eq!(id, 4);
}

#[test]
fn multi_packet_reassembly() {
    let mut conn = session();
    for _ in 0..3 {
        conn.cmd("warm up").unwrap();
    }
    let (reply, bytes) = conn.response("list").unwrap();
    let mut expected = request_frame(5, PacketType::ExecCommand, "list");
    expected.extend(request_frame(6, PacketType::ExecCommand, ""));
    assert_eq!(bytes, expected);

    let reply = more(reply.receive(&reply_frame(5, "foo")).unwrap());
    let reply = more(reply.receive(&reply_frame(5, "bar")).unwrap());
    let reply = more(reply.receive(&reply_frame(5, "baz")).unwrap());
    let text = done(reply.receive(&reply_frame(6, "")).unwrap());
    assert_eq!(text, "foobarbaz");
}

#[test]
fn single_frame_reply() {
    let mut conn = session();
    let (reply, _) = conn.response("list").unwrap();
    let text = done(reply.receive(&reply_frame(3, "")).unwrap());
    assert_eq!(text, "");
}

#[test]
fn body_of_the_end_frame_is_dropped() {
    let mut conn = session();
    let (reply, _) = conn.response("list").unwrap();
    let reply = more(reply.receive(&reply_frame(2, "kept")).unwrap());
    let text = done(reply.receive(&reply_frame(3, "dropped")).unwrap());
    assert_eq!(text, "kept");
}

#[test]
fn frames_of_any_other_id_are_collected() {
    let mut conn = session();
    let (reply, _) = conn.response("list").unwrap();
    let reply = more(reply.receive(&reply_frame(2, "a")).unwrap());
    let reply = more(reply.receive(&reply_frame(77, "b")).unwrap());
    let reply = more(reply.receive(&reply_frame(-1, "c")).unwrap());
    let reply = more(reply.receive(&reply_frame(0, "")).unwrap());
    let text = done(reply.receive(&reply_frame(3, "")).unwrap());
    assert_eq!(text, "abc");
}

#[test]
fn receive_fails_as_io_on_what_is_no_frame() {
    let mut conn = session();
    let (reply, _) = conn.response("list").unwrap();
    let reply = more(reply.receive(&reply_frame(2, "part")).unwrap());
    let cut = &reply_frame(3, "")[..9];
    assert!(matches!(reply.receive(cut), Err(Error::Io(_))));
}

#[test]
fn generator_hands_out_each_id_once() {
    let mut conn = session();
    assert_eq!(conn.generate_packet_id(), 2);
    assert_eq!(conn.generate_packet_id(), 3);
    let (id, _) = conn.cmd("list").unwrap();
    assert_eq!(id, 4);
    assert_eq!(conn.generate_packet_id(), 5);
}
