use bytes::BytesMut;
use quicksockets::frame::{Frame, Opcode, WebsocketFrame};
use quicksockets::message::Message;
use quicksockets::session::{dispatch, step, Action, Event, SessionState};
use quicksockets::SocketCallback;

#[derive(Default)]
struct Recorder {
    opened: usize,
    messages: Vec<String>,
    closes: Vec<(Option<u32>, String)>,
    sent: BytesMut,
}

impl SocketCallback for Recorder {
    fn on_open(&mut self) {
        self.opened += 1;
    }

    fn on_close(&mut self, close_code: Option<u32>, reason: String) {
        self.closes.push((close_code, reason));
    }

    fn on_message(&mut self, frame: Message) {
        self.messages.push(frame.to_string());
        if frame.to_string() == "ping" {
            WebsocketFrame.encode(Message::from("pong").into(), &mut self.sent).unwrap();
        }
    }
}

struct OnlyClose {
    closed: bool,
}

impl SocketCallback for OnlyClose {
    fn on_close(&mut self, _close_code: Option<u32>, _reason: String) {
        self.closed = true;
    }
}

fn masked(first: u8, key: [u8; 4], payload: &[u8]) -> BytesMut {
    let mut bytes = vec![first, 0x80 | payload.len() as u8];
    bytes.extend_from_slice(&key);
    bytes.extend_from_slice(&WebsocketFrame::mutate(payload, &key));
    BytesMut::from(&bytes[..])
}

fn frame_with(opcode: Opcode, text: &str) -> Frame {
    let mut frame = Frame::new(text.to_string());
    frame.opcode = opcode;
    frame
}

fn all_events() -> Vec<Event> {
    vec![
        Event::HandshakeDone,
        Event::HandshakeFailed,
        Event::Frame(frame_with(Opcode::Text, "t")),
        Event::Frame(frame_with(Opcode::Close, "c")),
        Event::Frame(Frame::ping()),
        Event::Failure,
        Event::End,
    ]
}

fn rank(state: SessionState) -> u8 {
    match state {
        SessionState::Handshaking => 0,
        SessionState::Open => 1,
        SessionState::Closed => 2,
    }
}

#[test]
fn handshake_done_opens() {
    let (next, action) = step(SessionState::Handshaking, Event::HandshakeDone);
    assert_eq!(next, SessionState::Open);
    assert!(matches!(action, Action::Open));
}

#[test]
fn handshake_failed_closes_silently() {
    let (next, action) = step(SessionState::Handshaking, Event::HandshakeFailed);
    assert_eq!(next, SessionState::Closed);
    assert!(matches!(action, Action::Nothing));
    let mut handler = Recorder::default();
    assert_eq!(dispatch(&mut handler, SessionState::Handshaking, Event::HandshakeFailed), SessionState::Closed);
    assert_eq!(handler.opened, 0);
    assert!(handler.messages.is_empty());
    assert!(handler.closes.is_empty());
}

#[test]
fn nothing_else_happens_while_handshaking() {
    for event in all_events().into_iter().skip(2) {
        let (next, action) = step(SessionState::Handshaking, event);
        assert_eq!(next, SessionState::Handshaking);
        assert!(matches!(action, Action::Nothing));
    }
}

#[test]
fn text_frame_is_a_message() {
    let (next, action) = step(SessionState::Open, Event::Frame(Frame::new("hello".to_string())));
    assert_eq!(next, SessionState::Open);
    match action {
        Action::Message(message) => assert_eq!(message.to_string(), "hello"),
        _ => panic!("a text frame is a message"),
    }
}

#[test]
fn close_frame_closes_with_its_code_and_text() {
    let mut frame = frame_with(Opcode::Close, "going");
    frame.reason = Some(1001);
    let (next, action) = step(SessionState::Open, Event::Frame(frame));
    assert_eq!(next, SessionState::Closed);
    match action {
        Action::Close { code, reason } => {
            assert_eq!(code, Some(1001));
            assert_eq!(reason, "going");
        },
        _ => panic!("a close frame closes"),
    }
}

#[test]
fn close_frame_without_a_code() {
    let (next, action) = step(SessionState::Open, Event::Frame(frame_with(Opcode::Close, "")));
    assert_eq!(next, SessionState::Closed);
    match action {
        Action::Close { code, reason } => {
            assert_eq!(code, None);
            assert_eq!(reason, "");
        },
        _ => panic!("a close frame closes"),
    }
}

#[test]
fn other_frames_are_ignored() {
    let frames = vec![
        Frame::ping(),
        Frame::pong(),
        frame_with(Opcode::Binary, "b"),
        frame_with(Opcode::Continue, "c"),
        frame_with(Opcode::Other(0x0A), "o"),
    ];
    for frame in frames {
        let (next, action) = step(SessionState::Open, Event::Frame(frame));
        assert_eq!(next, SessionState::Open);
        assert!(matches!(action, Action::Nothing));
    }
}

#[test]
fn failure_closes_without_a_code() {
    let (next, action) = step(SessionState::Open, Event::Failure);
    assert_eq!(next, SessionState::Closed);
    match action {
        Action::Close { code, reason } => {
            assert_eq!(code, None);
            assert_eq!(reason, "");
        },
        _ => panic!("a failure closes"),
    }
}

#[test]
fn end_of_stream_closes_without_a_code() {
    let (next, action) = step(SessionState::Open, Event::End);
    assert_eq!(next, SessionState::Closed);
    match action {
        Action::Close { code, reason } => {
            assert_eq!(code, None);
            assert_eq!(reason, "");
        },
        _ => panic!("the end of the stream closes"),
    }
}

#[test]
fn handshake_events_are_ignored_once_open() {
    for event in all_events().into_iter().take(2) {
        let (next, action) = step(SessionState::Open, event);
        assert_eq!(next, SessionState::Open);
        assert!(matches!(action, Action::Nothing));
    }
}

#[test]
fn closed_stays_closed() {
    for event in all_events() {
        let (next, action) = step(SessionState::Closed, event);
        assert_eq!(next, SessionState::Closed);
        assert!(matches!(action, Action::Nothing));
    }
    let mut handler = Recorder::default();
    for event in all_events() {
        assert_eq!(dispatch(&mut handler, SessionState::Closed, event), SessionState::Closed);
    }
    assert_eq!(handler.opened, 0);
    assert!(handler.messages.is_empty());
    assert!(handler.closes.is_empty());
}

#[test]
fn a_session_never_goes_back() {
    for state in [SessionState::Handshaking, SessionState::Open, SessionState::Closed] {
        for event in all_events() {
            let (next, action) = step(state, event);
            assert!(rank(state) <= rank(next));
            if matches!(action, Action::Close { .. }) {
                assert_eq!(next, SessionState::Closed);
            }
        }
    }
}

#[test]
fn dispatch_calls_on_open() {
    let mut handler = Recorder::default();
    assert_eq!(dispatch(&mut handler, SessionState::Handshaking, Event::HandshakeDone), SessionState::Open);
    assert_eq!(handler.opened, 1);
    assert!(handler.messages.is_empty());
    assert!(handler.closes.is_empty());
}

#[test]
fn dispatch_with_the_default_callbacks() {
    let mut handler = OnlyClose { closed: false };
    let mut state = dispatch(&mut handler, SessionState::Handshaking, Event::HandshakeDone);
    state = dispatch(&mut handler, state, Event::Frame(Frame::new("unheard".to_string())));
    assert_eq!(state, SessionState::Open);
    assert!(!handler.closed);
    state = dispatch(&mut handler, state, Event::End);
    assert_eq!(state, SessionState::Closed);
    assert!(handler.closed);
}

#[test]
fn ping_text_is_answered_with_pong() {
    let mut handler = Recorder::default();
    let mut state = dispatch(&mut handler, SessionState::Handshaking, Event::HandshakeDone);

    let mut received = masked(0x81, [0x1F, 0x2E, 0x3D, 0x4C], b"ping");
    let frame = WebsocketFrame.decode(&mut received).unwrap().unwrap();
    state = dispatch(&mut handler, state, Event::Frame(frame));

    assert_eq!(state, SessionState::Open);
    assert_eq!(handler.messages, vec!["ping".to_string()]);
    assert!(handler.closes.is_empty());
    assert_eq!(&handler.sent[..], &[0x81, 0x04, b'p', b'o', b'n', b'g']);
}

#[test]
fn close_with_code_1000_ends_the_session() {
    let mut handler = Recorder::default();
    let mut state = dispatch(&mut handler, SessionState::Handshaking, Event::HandshakeDone);

    let mut frame = Frame::new(String::new());
    frame.opcode = Opcode::Close;
    frame.reason = Some(1000);
    state = dispatch(&mut handler, state, Event::Frame(frame));

    assert_eq!(state, SessionState::Closed);
    assert_eq!(handler.closes, vec![(Some(1000), String::new())]);
    assert!(handler.messages.is_empty());

    state = dispatch(&mut handler, state, Event::Frame(Frame::new("late".to_string())));
    assert_eq!(state, SessionState::Closed);
    assert!(handler.messages.is_empty());
    assert_eq!(handler.closes.len(), 1);
}

#[test]
fn close_frame_from_the_wire_ends_the_session() {
    let mut handler = Recorder::default();
    let mut state = dispatch(&mut handler, SessionState::Handshaking, Event::HandshakeDone);

    let key = [0x51, 0x62, 0x73, 0x84];
    let mut bytes = vec![0x88, 0x83];
    bytes.extend_from_slice(&key);
    bytes.extend_from_slice(&[0x03, 0xE8]);
    bytes.extend_from_slice(&WebsocketFrame::mutate(b"bye", &key));
    let mut received = BytesMut::from(&bytes[..]);
    let frame = WebsocketFrame.decode(&mut received).unwrap().unwrap();
    state = dispatch(&mut handler, state, Event::Frame(frame));

    assert_eq!(state, SessionState::Closed);
    assert_eq!(handler.closes, vec![(Some(1000), "bye".to_string())]);
}

#[test]
fn a_cut_frame_closes_without_a_code() {
    let mut handler = Recorder::default();
    let mut state = dispatch(&mut handler, SessionState::Handshaking, Event::HandshakeDone);

    let mut received = masked(0x81, [1, 2, 3, 4], b"ping");
    received.truncate(8);
    let event = match WebsocketFrame.decode(&mut received) {
        Ok(Some(frame)) => Event::Frame(frame),
        Ok(None) => panic!("a cut frame is an error"),
        Err(_) => Event::Failure,
    };
    state = dispatch(&mut handler, state, event);

    assert_eq!(state, SessionState::Closed);
    assert_eq!(handler.closes, vec![(None, String::new())]);
    assert!(handler.messages.is_empty());
}

#[test]
fn an_unmasked_frame_reaches_no_callback() {
    let mut handler = Recorder::default();
    let state = dispatch(&mut handler, SessionState::Handshaking, Event::HandshakeDone);

    let mut received = BytesMut::from(&[0x81, 0x04, b'p', b'i', b'n', b'g'][..]);
    assert!(matches!(WebsocketFrame.decode(&mut received), Ok(None)));
    assert!(received.is_empty());

    assert_eq!(state, SessionState::Open);
    assert!(handler.messages.is_empty());
    assert!(handler.sent.is_empty());
}
