//! The text that a handler receives and sends.

use crate::frame::{Frame, FrameView};
use vstd::prelude::*;
use vstd::std_specs::convert::IntoSpec;

verus! {

/// A text message.
pub struct Message {
    data: String,
}

impl View for Message {
    type V = Seq<char>;

    closed spec fn view(&self) -> Seq<char> {
        self.data@
    }
}

impl Message {
    /// The message with the text `data`.
    pub fn new(data: String) -> (message: Self)
        ensures
            message@ == data@,
    {
        Self { data }
    }

    /// The message with the text that `a` converts into.
    pub fn from<T: Into<String>>(a: T) -> (message: Self)
        ensures
            exists|text: String| #[trigger]
                call_ensures(T::into, (a,), text) && message@ == text@,
            T::obeys_into_spec() ==> message@ == a.into_spec()@,
    {
        let data: String = a.into();
        Self { data }
    }

    /// The message that a frame carries: its text.
    pub fn from_frame(a: &Frame) -> (message: Self)
        ensures
            message@ == a@.message,
    {
        Self { data: a.get_msg() }
    }

    /// The text of the message.
    pub fn to_string(&self) -> (text: String)
        ensures
            text@ == self@,
    {
        self.data.clone()
    }
}

impl From<Message> for Frame {
    /// The final, unmasked text frame that carries the message.
    fn from(message: Message) -> (frame: Frame)
        ensures
            frame@ == FrameView::text(message@),
    {
        Frame::new(message.data)
    }
}

/// What the conversion gives is said by its own contract, over views.
/// Nothing is said of it as an equation between frames.
impl vstd::std_specs::convert::FromSpecImpl<Message> for Frame {
    open spec fn obeys_from_spec() -> bool {
        false
    }

    open spec fn from_spec(message: Message) -> Frame {
        arbitrary()
    }
}

} // verus!
