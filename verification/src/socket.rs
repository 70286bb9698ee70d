//! Slack's socket: what each frame on it asks for.
use crate::json::{json_object1, json_text, Json, JsonView};
use crate::outside::{json_of_text, json_of_value, value_of_text};
use crate::slack::json_option;
use crate::text::same_text;
use vstd::prelude::*;

verus! {

/// A frame that came on the socket.
#[derive(Debug)]
pub enum SocketFrame {
    Text(String),
    Ping,
    Close,
    Other,
}

/// What a frame asks for, in this order: an acknowledgement to send, an event to
/// look at, an answer to a ping, and an end to the connection; or that it could
/// not be read.
#[derive(Debug)]
pub struct SocketAction {
    pub ack: Option<Json>,
    pub event: Option<Json>,
    pub pong: bool,
    pub stop: bool,
    pub unreadable: bool,
}

pub struct SocketActionView {
    pub ack: Option<JsonView>,
    pub event: Option<JsonView>,
    pub pong: bool,
    pub stop: bool,
    pub unreadable: bool,
}

impl View for SocketAction {
    type V = SocketActionView;

    open spec fn view(&self) -> SocketActionView {
        SocketActionView {
            ack: json_option(self.ack),
            event: json_option(self.event),
            pong: self.pong,
            stop: self.stop,
            unreadable: self.unreadable,
        }
    }
}

/// A frame that asks for nothing.
pub open spec fn nothing() -> SocketActionView {
    SocketActionView { ack: None, event: None, pong: false, stop: false, unreadable: false }
}

/// What an envelope asks for: one with an id is acknowledged, one with an event
/// holds a payload to look at, and one that says so ends the connection.
pub open spec fn envelope_action(envelope: JsonView) -> SocketActionView {
    let kind = envelope.text_at("type"@);
    SocketActionView {
        ack: match envelope.text_at("envelope_id"@) {
            Some(id) => Some(JsonView::Object(seq![("envelope_id"@, JsonView::Text(id))])),
            None => None,
        },
        event: if kind == Some("events_api"@) {
            Some(
                match envelope.get("payload"@) {
                    Some(payload) => payload,
                    None => JsonView::Null,
                },
            )
        } else {
            None
        },
        pong: false,
        stop: kind == Some("disconnect"@),
        unreadable: false,
    }
}

/// What an envelope asks for.
pub fn read_envelope(envelope: Json) -> (r: SocketAction)
    ensures
        r@ == envelope_action(envelope@),
{
    let ack: Option<Json> = match envelope.text_at("envelope_id") {
        Some(id) => Some(json_object1("envelope_id", json_text(id))),
        None => None,
    };
    let (is_event, stop) = match envelope.text_at("type") {
        Some(kind) => (same_text(kind, "events_api"), same_text(kind, "disconnect")),
        None => (false, false),
    };
    let event: Option<Json> = if is_event {
        Some(envelope.into_entry("payload"))
    } else {
        None
    };
    SocketAction { ack, event, pong: false, stop, unreadable: false }
}

/// What a frame asks for. One of text that is no JSON cannot be read and asks for
/// nothing.
pub open spec fn frame_action(frame: SocketFrame) -> SocketActionView {
    match frame {
        SocketFrame::Text(text) => match json_of_text(text@) {
            Some(envelope) => envelope_action(envelope),
            None => SocketActionView { unreadable: true, ..nothing() },
        },
        SocketFrame::Ping => SocketActionView { pong: true, ..nothing() },
        SocketFrame::Close => SocketActionView { stop: true, ..nothing() },
        SocketFrame::Other => nothing(),
    }
}

/// What a frame asks for.
pub fn read_frame(frame: &SocketFrame) -> (r: SocketAction)
    ensures
        r@ == frame_action(*frame),
{
    let mut action = SocketAction {
        ack: None,
        event: None,
        pong: false,
        stop: false,
        unreadable: false,
    };
    match frame {
        SocketFrame::Text(text) => match value_of_text(text.as_str()) {
            Ok(value) => {
                return read_envelope(json_of_value(&value));
            },
            Err(_) => {
                action.unreadable = true;
            },
        },
        SocketFrame::Ping => {
            action.pong = true;
        },
        SocketFrame::Close => {
            action.stop = true;
        },
        SocketFrame::Other => {},
    }
    action
}

/// Every envelope that has an id is acknowledged, whatever else it holds.
pub proof fn law_envelopes_are_acknowledged(envelope: JsonView)
    ensures
        envelope.text_at("envelope_id"@) is Some <==> envelope_action(envelope).ack is Some,
        envelope_action(envelope).ack matches Some(ack) ==> ack.text_at("envelope_id"@)
            == envelope.text_at("envelope_id"@),
{
}

} // verus!
