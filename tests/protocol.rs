use firmware::p3::{P3Error, P3Reader};
use firmware::proto::mqtt_udp::{parse_command, CommandLink, LinkAction, LinkEvent};
use firmware::proto::websocket::{delivered, frame_for, FrameRead};
use firmware::proto::{
    classify_text, hello_session_id, is_json_safe, MsgType, ProtoMsg, ServerMsg, ServerText, Tts,
    HELLO_MESSAGE,
};
use firmware::robot::{Action, Command, Event, Wait};
use firmware::{Protocol, Robot, RobotState};

fn members(pairs: &[(&str, Option<&str>)]) -> Vec<(String, Option<String>)> {
    pairs
        .iter()
        .map(|(k, v)| (k.to_string(), v.map(|s| s.to_string())))
        .collect()
}

#[test]
fn recv_hello_returns_session_id() {
    let mut p = Protocol::new(());
    let msg = ProtoMsg::Text("{\"session_id\":\"abc123\"}");
    assert_eq!(hello_session_id(msg), Some("abc123".to_string()));
    assert_eq!(p.recv_hello(msg), "abc123");
    assert_eq!(p.session_id(), Some(&"abc123".to_string()));
}

#[test]
fn recv_hello_ignores_other_members() {
    let mut p = Protocol::new(());
    let text = "{\"type\":\"hello\",\"transport\":\"websocket\",\"session_id\":\"s-9\",\"audio_params\":{\"sample_rate\":24000}}";
    assert_eq!(p.recv_hello(ProtoMsg::Text(text)), "s-9");
}

#[test]
fn hello_check_rejects_binary() {
    assert_eq!(hello_session_id(ProtoMsg::Binary(&[1, 2, 3])), None);
}

#[test]
fn hello_check_rejects_text_without_session() {
    assert_eq!(hello_session_id(ProtoMsg::Text("not json")), None);
    assert_eq!(hello_session_id(ProtoMsg::Text("{\"type\":\"hello\"}")), None);
    assert_eq!(hello_session_id(ProtoMsg::Text("{\"session_id\":42}")), None);
}

#[test]
fn session_ids_safe_for_listen_requests() {
    assert!(is_json_safe("abc123"));
    assert!(is_json_safe(""));
    assert!(is_json_safe("sé-9"));
    assert!(!is_json_safe("a\"b"));
    assert!(!is_json_safe("a\\b"));
    assert!(!is_json_safe("a\nb"));
}

#[test]
fn recv_unknown_type_is_surfaced_as_unknown() {
    let p = Protocol::new(());
    let text = "{\"type\":\"unsupported_x\"}";
    match p.recv(ProtoMsg::Text(text)) {
        ServerMsg::Unknown(t) => assert_eq!(t, text),
        _ => panic!("expected an unknown message"),
    }
}

#[test]
fn recv_non_json_text_is_unknown() {
    let p = Protocol::new(());
    match p.recv(ProtoMsg::Text("hello there")) {
        ServerMsg::Unknown(t) => assert_eq!(t, "hello there"),
        _ => panic!("expected an unknown message"),
    }
}

#[test]
fn recv_parses_control_messages() {
    let p = Protocol::new(());
    match p.recv(ProtoMsg::Text("{\"type\":\"stt\",\"text\":\"hi\"}")) {
        ServerMsg::Text(ServerText::Stt { text }) => assert_eq!(text, "hi"),
        _ => panic!("expected stt"),
    }
    match p.recv(ProtoMsg::Text("{\"type\":\"tts\",\"state\":\"sentence_start\",\"text\":\"ok\"}")) {
        ServerMsg::Text(ServerText::Tts(Tts::SentenceStart { text })) => assert_eq!(text, "ok"),
        _ => panic!("expected tts sentence start"),
    }
    match p.recv(ProtoMsg::Text("{\"type\":\"tts\",\"state\":\"stop\"}")) {
        ServerMsg::Text(ServerText::Tts(Tts::Stop)) => (),
        _ => panic!("expected tts stop"),
    }
    match p.recv(ProtoMsg::Text("{\"type\":\"llm\"}")) {
        ServerMsg::Unknown(_) => (),
        _ => panic!("llm without text is not a control message"),
    }
}

#[test]
fn recv_passes_binary_through() {
    let p = Protocol::new(());
    let data = [9u8, 8, 7];
    match p.recv(ProtoMsg::Binary(&data)) {
        ServerMsg::Binary(b) => assert_eq!(b, &data),
        _ => panic!("expected binary"),
    }
}

#[test]
fn server_text_from_members_variants() {
    assert!(matches!(
        ServerText::from_members(&members(&[("type", Some("hello")), ("version", None)])),
        Some(ServerText::Hello {})
    ));
    assert!(matches!(
        ServerText::from_members(&members(&[("type", Some("iot"))])),
        Some(ServerText::Iot {})
    ));
    assert!(matches!(
        ServerText::from_members(&members(&[("state", Some("start")), ("type", Some("tts"))])),
        Some(ServerText::Tts(Tts::Start))
    ));
    assert!(matches!(
        ServerText::from_members(&members(&[("type", Some("tts")), ("state", Some("sentence_end"))])),
        Some(ServerText::Tts(Tts::SentenceEnd {}))
    ));
    assert!(ServerText::from_members(&members(&[("type", Some("tts")), ("state", Some("sentence_start"))])).is_none());
    assert!(ServerText::from_members(&members(&[("type", None)])).is_none());
    assert!(ServerText::from_members(&members(&[])).is_none());
}

#[test]
fn classify_text_falls_back_to_unknown() {
    let text = "{\"type\":\"unsupported_x\"}";
    let parsed = Some(members(&[("type", Some("unsupported_x"))]));
    assert!(matches!(classify_text(text, parsed), ServerMsg::Unknown(t) if t == text));
    assert!(matches!(classify_text(text, None), ServerMsg::Unknown(t) if t == text));
    let parsed = Some(members(&[("type", Some("llm")), ("text", Some("answer"))]));
    assert!(matches!(classify_text("x", parsed), ServerMsg::Text(ServerText::Llm { text }) if text == "answer"));
}

#[test]
fn hello_and_listen_messages() {
    let p = Protocol::new(());
    match p.send_hello() {
        ProtoMsg::Text(t) => assert_eq!(t, HELLO_MESSAGE),
        _ => panic!("hello is text"),
    }
    assert!(HELLO_MESSAGE.contains("\"sample_rate\":16000"));
    assert_eq!(
        p.send_listening("abc123"),
        "{\"session_id\":\"abc123\",\"type\":\"listen\",\"state\":\"start\",\"mode\":\"auto\"}"
    );
    assert_eq!(
        p.send_listening_stop("abc123"),
        "{\"session_id\":\"abc123\",\"type\":\"listen\",\"state\":\"stop\",\"mode\":\"auto\"}"
    );
}

#[test]
fn msg_type_tags() {
    assert_eq!(ProtoMsg::Text("a").msg_type(), MsgType::Text);
    assert_eq!(ProtoMsg::Binary(&[1]).msg_type(), MsgType::Binary);
}

#[test]
fn websocket_frames_map_to_messages() {
    assert!(matches!(delivered(FrameRead::Text("x")), Some(ProtoMsg::Text("x"))));
    assert!(matches!(delivered(FrameRead::Binary(&[5])), Some(ProtoMsg::Binary(&[5]))));
    assert!(matches!(delivered(FrameRead::Closed), Some(ProtoMsg::Text(""))));
    assert!(delivered(FrameRead::Pong(&[1])).is_none());
    assert!(delivered(FrameRead::Ping(&[1])).is_none());
    let (ty, bytes) = frame_for(ProtoMsg::Text("hé"));
    assert_eq!(ty, MsgType::Text);
    assert_eq!(bytes, "hé".as_bytes());
    let (ty, bytes) = frame_for(ProtoMsg::Binary(&[1, 2]));
    assert_eq!(ty, MsgType::Binary);
    assert_eq!(bytes, &[1, 2]);
}

#[test]
fn reconnect_blocks_commands_until_fresh_client() {
    let mut link = CommandLink::new();
    assert_eq!(link.on_event(LinkEvent::ReceiveFailed), LinkAction::Reconnect);
    assert_eq!(link.on_event(LinkEvent::Received(Some(Command::Speak))), LinkAction::AwaitClient);
    assert_eq!(link.on_event(LinkEvent::PingDue), LinkAction::AwaitClient);
    assert_eq!(link.on_event(LinkEvent::ClientReady), LinkAction::Receive);
    assert_eq!(link.on_event(LinkEvent::PingDue), LinkAction::SendPing);
    assert_eq!(link.on_event(LinkEvent::Received(None)), LinkAction::Receive);
    assert_eq!(
        link.on_event(LinkEvent::Received(Some(Command::Speak))),
        LinkAction::Deliver(Command::Speak)
    );
}

#[test]
fn mqtt_payload_commands() {
    assert_eq!(parse_command("{\"command\":\"Speak\"}"), Some(Command::Speak));
    assert_eq!(parse_command("{\"command\":\"Stop\",\"x\":1}"), Some(Command::Stop));
    assert_eq!(parse_command("{\"command\":\"Listen\"}"), Some(Command::Listen));
    assert_eq!(parse_command("{\"command\":\"Jump\"}"), None);
    assert_eq!(parse_command("garbage"), None);
}

#[test]
fn robot_speak_interrupts_listening() {
    let mut robot = Robot::new((), ());
    assert_eq!(robot.state(), RobotState::Idle);
    robot.set_state(RobotState::Listening);
    assert_eq!(robot.awaits(), Wait::ControlOrRecording);
    assert!(matches!(robot.step(Event::Control(Command::Speak)), Action::Nothing));
    assert_eq!(robot.state(), RobotState::Speaking);
    assert!(matches!(robot.step(Event::Recorded(vec![1, 2])), Action::Nothing));
    assert!(matches!(robot.step(Event::Inbound(vec![3])), Action::Play(d) if d == vec![3]));
    assert_eq!(robot.state(), RobotState::Speaking);
}

#[test]
fn robot_transition_table() {
    let mut robot = Robot::new((), ());
    assert_eq!(robot.awaits(), Wait::ControlOnly);
    assert!(matches!(robot.step(Event::Inbound(vec![1])), Action::Nothing));
    assert!(matches!(robot.step(Event::Control(Command::Stop)), Action::Nothing));
    assert_eq!(robot.state(), RobotState::Idle);
    robot.step(Event::Control(Command::Listen));
    assert_eq!(robot.state(), RobotState::Listening);
    assert!(matches!(robot.step(Event::Recorded(vec![4, 5])), Action::SendBin(d) if d == vec![4, 5]));
    robot.step(Event::Control(Command::Speak));
    assert_eq!(robot.awaits(), Wait::ControlOrInbound);
    robot.step(Event::Control(Command::Stop));
    assert_eq!(robot.state(), RobotState::Idle);
}

#[test]
fn p3_reads_records_in_order() {
    let data = [0u8, 0, 0, 2, 10, 11, 0, 0, 0, 0, 9, 9, 0, 1, 12];
    let mut r = P3Reader::new(&data);
    assert_eq!(r.next(), Ok(Some(vec![10, 11])));
    assert_eq!(r.next(), Ok(Some(vec![])));
    assert_eq!(r.next(), Ok(Some(vec![12])));
    assert_eq!(r.next(), Ok(None));
}

#[test]
fn p3_truncated_record_is_an_error() {
    let data = [0u8, 0, 1, 0, 1, 2];
    let mut r = P3Reader::new(&data);
    assert_eq!(r.next(), Err(P3Error::UnexpectedEof));
    assert_eq!(r.next(), Ok(None));
    let short = [0u8, 0, 0];
    let mut r = P3Reader::new(&short);
    assert_eq!(r.next(), Err(P3Error::UnexpectedEof));
}
