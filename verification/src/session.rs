//! The life of one connection: which callback each event calls for, and
//! when the connection is over.

use crate::frame::{Frame, FrameView, Opcode};
use crate::message::Message;
use crate::SocketCallback;
use vstd::prelude::*;

verus! {

/// Where a connection stands.
#[derive(Debug, Clone, Copy, PartialEq, Eq, Structural)]
pub enum SessionState {
    /// Accepted; the handshake has not come to an end yet.
    Handshaking,
    /// The handshake was answered; frames are read.
    Open,
    /// Over. Nothing more is read and no callback is called.
    Closed,
}

/// What happened on a connection.
#[derive(Debug)]
pub enum Event {
    /// The handshake was answered.
    HandshakeDone,
    /// The handshake failed.
    HandshakeFailed,
    /// A frame was read.
    Frame(Frame),
    /// Reading or decoding failed.
    Failure,
    /// The stream ended.
    End,
}

/// What an event holds, as plain values.
pub enum EventView {
    HandshakeDone,
    HandshakeFailed,
    Frame(FrameView),
    Failure,
    End,
}

impl View for Event {
    type V = EventView;

    open spec fn view(&self) -> EventView {
        match *self {
            Event::HandshakeDone => EventView::HandshakeDone,
            Event::HandshakeFailed => EventView::HandshakeFailed,
            Event::Frame(frame) => EventView::Frame(frame@),
            Event::Failure => EventView::Failure,
            Event::End => EventView::End,
        }
    }
}

/// What the handler is to be told.
pub enum Action {
    /// Nothing.
    Nothing,
    /// The connection is open.
    Open,
    /// A message came.
    Message(Message),
    /// The connection is closed, with the status code and the text that
    /// the peer gave.
    Close { code: Option<u32>, reason: String },
}

/// What an action holds, as plain values.
pub enum ActionView {
    Nothing,
    Open,
    Message(Seq<char>),
    Close { code: Option<u32>, reason: Seq<char> },
}

impl View for Action {
    type V = ActionView;

    open spec fn view(&self) -> ActionView {
        match *self {
            Action::Nothing => ActionView::Nothing,
            Action::Open => ActionView::Open,
            Action::Message(message) => ActionView::Message(message@),
            Action::Close { code, reason } => ActionView::Close { code, reason: reason@ },
        }
    }
}

/// The state that follows `state` on `event`.
///
/// A connection opens when its handshake is answered and is over when the
/// handshake fails. An open connection is over after a close frame, a
/// failure or the end of the stream. A closed connection stays closed.
/// Every other event leaves the state as it is.
pub open spec fn next_state(state: SessionState, event: EventView) -> SessionState {
    match (state, event) {
        (SessionState::Handshaking, EventView::HandshakeDone) => SessionState::Open,
        (SessionState::Handshaking, EventView::HandshakeFailed) => SessionState::Closed,
        (SessionState::Open, EventView::Frame(frame)) => if frame.opcode == Opcode::Close {
            SessionState::Closed
        } else {
            SessionState::Open
        },
        (SessionState::Open, EventView::Failure) => SessionState::Closed,
        (SessionState::Open, EventView::End) => SessionState::Closed,
        _ => state,
    }
}

/// What the handler is told when `event` happens in `state`.
///
/// It hears of the opening, of each text frame as a message, and of the
/// close: with the frame's status code and text after a close frame,
/// without a code and with no text after a failure or the end of the
/// stream. Of a failed handshake and of any other frame it hears nothing.
pub open spec fn action_for(state: SessionState, event: EventView) -> ActionView {
    match (state, event) {
        (SessionState::Handshaking, EventView::HandshakeDone) => ActionView::Open,
        (SessionState::Open, EventView::Frame(frame)) => if frame.opcode == Opcode::Close {
            ActionView::Close { code: frame.reason, reason: frame.message }
        } else if frame.opcode == Opcode::Text {
            ActionView::Message(frame.message)
        } else {
            ActionView::Nothing
        },
        (SessionState::Open, EventView::Failure) => ActionView::Close {
            code: None,
            reason: Seq::empty(),
        },
        (SessionState::Open, EventView::End) => ActionView::Close {
            code: None,
            reason: Seq::empty(),
        },
        _ => ActionView::Nothing,
    }
}

/// How far a state is along the life of a connection.
pub open spec fn rank(state: SessionState) -> nat {
    match state {
        SessionState::Handshaking => 0,
        SessionState::Open => 1,
        SessionState::Closed => 2,
    }
}

/// A connection never goes back: it is handshaking, then open, then
/// closed. Once closed it stays closed and the handler hears nothing
/// more; and it hears of nothing that happens before the connection is
/// open, but of the opening itself.
pub proof fn lemma_session_advances(state: SessionState, event: EventView)
    ensures
        rank(state) <= rank(next_state(state, event)),
        state == SessionState::Closed ==> next_state(state, event) == SessionState::Closed
            && action_for(state, event) == ActionView::Nothing,
        state == SessionState::Handshaking ==> action_for(state, event) == ActionView::Nothing
            || (action_for(state, event) == ActionView::Open && next_state(state, event)
            == SessionState::Open),
        action_for(state, event) is Close ==> next_state(state, event) == SessionState::Closed,
{
}

/// Takes one event: the state that follows, and what to tell the handler.
pub fn step(state: SessionState, event: Event) -> (r: (SessionState, Action))
    ensures
        r.0 == next_state(state, event@),
        r.1@ == action_for(state, event@),
{
    match state {
        SessionState::Handshaking => match event {
            Event::HandshakeDone => (SessionState::Open, Action::Open),
            Event::HandshakeFailed => (SessionState::Closed, Action::Nothing),
            _ => (state, Action::Nothing),
        },
        SessionState::Open => match event {
            Event::Frame(frame) => match frame.opcode() {
                Opcode::Close => {
                    let code = frame.reason();
                    (SessionState::Closed, Action::Close { code, reason: frame.get_msg() })
                },
                Opcode::Text => (SessionState::Open, Action::Message(Message::from_frame(&frame))),
                _ => (SessionState::Open, Action::Nothing),
            },
            Event::Failure | Event::End => (
                SessionState::Closed,
                Action::Close { code: None, reason: String::new() },
            ),
            _ => (state, Action::Nothing),
        },
        SessionState::Closed => (SessionState::Closed, Action::Nothing),
    }
}

/// Takes one event and tells the handler what it calls for: the state that
/// follows.
pub fn dispatch<H: SocketCallback>(handler: &mut H, state: SessionState, event: Event) -> (next:
    SessionState)
    ensures
        next == next_state(state, event@),
{
    let (next, action) = step(state, event);
    match action {
        Action::Nothing => {},
        Action::Open => handler.on_open(),
        Action::Message(message) => handler.on_message(message),
        Action::Close { code, reason } => handler.on_close(code, reason),
    }
    next
}

} // verus!
