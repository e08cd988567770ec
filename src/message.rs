//! Messages exchanged between actors, and the data needed to spawn one.
use vstd::prelude::*;

verus! {

/// The role a message plays in an exchange.
#[derive(Clone, Copy, Debug, PartialEq, Eq, Structural)]
pub enum MessageKind {
    Request,
    Response,
    Notification,
}

/// A message addressed to an actor. `from` is absent for messages that
/// originate outside the system.
#[derive(Debug)]
pub struct Message {
    pub from: Option<String>,
    pub to: String,
    pub payload: serde_json::Value,
}

/// The mathematical view of a [`Message`].
pub ghost struct MessageView {
    pub from: Option<Seq<char>>,
    pub to: Seq<char>,
    pub payload: serde_json::Value,
}

pub open spec fn opt_text_view(s: Option<String>) -> Option<Seq<char>> {
    match s {
        Some(t) => Some(t@),
        None => None,
    }
}

impl View for Message {
    type V = MessageView;

    open spec fn view(&self) -> MessageView {
        MessageView { from: opt_text_view(self.from), to: self.to@, payload: self.payload }
    }
}

/// The views of a sequence of messages, in order.
pub open spec fn messages_view(s: Seq<Message>) -> Seq<MessageView> {
    s.map_values(|m: Message| m@)
}

/// The data needed to spawn an actor: an optional requested id and the
/// full script source text.
#[derive(Debug)]
pub struct Props {
    pub id: Option<String>,
    pub script: String,
}

pub ghost struct PropsView {
    pub id: Option<Seq<char>>,
    pub script: Seq<char>,
}

impl View for Props {
    type V = PropsView;

    open spec fn view(&self) -> PropsView {
        PropsView { id: opt_text_view(self.id), script: self.script@ }
    }
}

pub open spec fn props_view(s: Seq<Props>) -> Seq<PropsView> {
    s.map_values(|p: Props| p@)
}

/// A message as a handler receives it: its sender and its payload.
#[derive(Debug)]
pub struct InternalMessage {
    pub sender: Option<String>,
    pub payload: serde_json::Value,
}

impl From<Message> for InternalMessage {
    fn from(value: Message) -> InternalMessage {
        InternalMessage { sender: value.from, payload: value.payload }
    }
}

impl vstd::std_specs::convert::FromSpecImpl<Message> for InternalMessage {
    open spec fn obeys_from_spec() -> bool {
        true
    }

    open spec fn from_spec(v: Message) -> InternalMessage {
        InternalMessage { sender: v.from, payload: v.payload }
    }
}

} // verus!
