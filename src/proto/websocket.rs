//! Mapping between WebSocket frames and transport messages.
//!
//! The framer reads one frame at a time. Data frames become messages; a
//! close frame is surfaced as an empty text message so that the session layer
//! sees the end of the stream; control frames (ping, pong) are consumed and
//! the read goes on.
use vstd::prelude::*;
use vstd::string::StringSliceAdditionalSpecFns;
use crate::proto::{MsgType, ProtoMsg};

verus! {

/// What one framer read produced.
#[derive(Clone, Copy, Debug)]
pub enum FrameRead<'a> {
    Binary(&'a [u8]),
    Text(&'a str),
    Pong(&'a [u8]),
    Ping(&'a [u8]),
    Closed,
}

/// The message a frame read delivers, or `None` when the read has to go on.
pub fn delivered<'a>(frame: FrameRead<'a>) -> (r: Option<ProtoMsg<'a>>)
    ensures
        frame matches FrameRead::Binary(b) ==> r == Some(ProtoMsg::Binary(b)),
        frame matches FrameRead::Text(t) ==> r == Some(ProtoMsg::Text(t)),
        frame is Closed ==> (r matches Some(ProtoMsg::Text(t)) && t@ == Seq::<char>::empty()),
        (frame is Pong || frame is Ping) ==> r is None,
{
    match frame {
        FrameRead::Binary(b) => Some(ProtoMsg::Binary(b)),
        FrameRead::Text(t) => Some(ProtoMsg::Text(t)),
        FrameRead::Closed => {
            let empty = "";
            proof {
                reveal_strlit("");
            }
            Some(ProtoMsg::Text(empty))
        },
        FrameRead::Pong(_) | FrameRead::Ping(_) => None,
    }
}

/// The frame a message is written as: its tag and its payload bytes.
pub fn frame_for<'a>(msg: ProtoMsg<'a>) -> (r: (MsgType, &'a [u8]))
    ensures
        msg matches ProtoMsg::Text(t) ==> r.0 == MsgType::Text && r.1@ == t.spec_bytes(),
        msg matches ProtoMsg::Binary(b) ==> r.0 == MsgType::Binary && r.1 == b,
{
    match msg {
        ProtoMsg::Text(t) => (MsgType::Text, t.as_bytes()),
        ProtoMsg::Binary(b) => (MsgType::Binary, b),
    }
}

} // verus!
