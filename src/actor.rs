//! The actor record: identity, script, JSON state, mailbox and send queue.
use std::collections::VecDeque;
use vstd::prelude::*;
use crate::json::{entries_view, json_object, object_value};
use crate::message::{messages_view, Message, MessageView};

verus! {

/// One actor: stable id, script source, current state, a FIFO mailbox of
/// inbound messages, a FIFO queue of outbound messages produced by its
/// handler, and a paused flag.
#[derive(Debug)]
pub struct Actor {
    pub id: String,
    pub mailbox: VecDeque<Message>,
    pub send_queue: VecDeque<Message>,
    pub script: String,
    pub state: serde_json::Value,
    pub paused: bool,
}

pub ghost struct ActorView {
    pub id: Seq<char>,
    pub mailbox: Seq<MessageView>,
    pub send_queue: Seq<MessageView>,
    pub script: Seq<char>,
    pub state: serde_json::Value,
    pub paused: bool,
}

impl View for Actor {
    type V = ActorView;

    open spec fn view(&self) -> ActorView {
        ActorView {
            id: self.id@,
            mailbox: messages_view(self.mailbox@),
            send_queue: messages_view(self.send_queue@),
            script: self.script@,
            state: self.state,
            paused: self.paused,
        }
    }
}

/// A message that a handler asked to send through the `send` host function.
#[derive(Debug)]
pub struct Outbound {
    pub to: String,
    pub payload: serde_json::Value,
}

/// What a handler invocation returned, as the script host classifies it.
#[derive(Debug)]
pub enum HandlerResult {
    /// Compilation or execution failed.
    Failed,
    /// The handler returned a value of neither accepted shape.
    Unrecognized,
    /// The handler returned a bare new state.
    State(serde_json::Value),
    /// The handler returned a pair of a new state and a response value.
    StateAndReply(serde_json::Value, serde_json::Value),
}

/// The full outcome of one handler invocation: its classified result and
/// the messages it sent, in order.
#[derive(Debug)]
pub struct HandlerOutcome {
    pub result: HandlerResult,
    pub sends: Vec<Outbound>,
}

/// The state an actor holds after a handler returned `r`.
pub open spec fn state_after(state: serde_json::Value, r: HandlerResult) -> serde_json::Value {
    match r {
        HandlerResult::State(s) => s,
        HandlerResult::StateAndReply(s, _) => s,
        _ => state,
    }
}

/// The reply synthesized for message `m` handled by actor `id`: present only
/// when the handler returned a pair and `m` names a sender.
pub open spec fn reply_of(id: Seq<char>, m: MessageView, r: HandlerResult) -> Option<MessageView> {
    match r {
        HandlerResult::StateAndReply(_, p) => match m.from {
            Some(f) => Some(MessageView { from: Some(id), to: f, payload: p }),
            None => None,
        },
        _ => None,
    }
}

/// The messages that the `send` calls of one invocation queue, each from `id`.
pub open spec fn sends_from(id: Seq<char>, sends: Seq<Outbound>) -> Seq<MessageView> {
    sends.map_values(|o: Outbound| MessageView { from: Some(id), to: o.to@, payload: o.payload })
}

impl Actor {
    /// A fresh, unpaused actor with empty queues and the given initial state.
    pub fn new(id: String, script: String, state: serde_json::Value) -> (r: Actor)
        ensures
            r@ == (ActorView {
                id: id@,
                mailbox: seq![],
                send_queue: seq![],
                script: script@,
                state,
                paused: false,
            }),
    {
        let r = Actor {
            id,
            mailbox: VecDeque::new(),
            send_queue: VecDeque::new(),
            script,
            state,
            paused: false,
        };
        assert(messages_view(r.mailbox@) =~= seq![]);
        assert(messages_view(r.send_queue@) =~= seq![]);
        r
    }

    /// Applies the outcome of the handler invoked on `message`: the state
    /// becomes the returned one (unchanged on failure or an unrecognized
    /// shape), the handler's sends join the send queue, and the reply, if
    /// any, is returned for routing.
    pub fn run(&mut self, message: &Message, outcome: HandlerOutcome) -> (reply: Option<Message>)
        ensures
            final(self)@ == (ActorView {
                state: state_after(old(self)@.state, outcome.result),
                send_queue: old(self)@.send_queue + sends_from(old(self)@.id, outcome.sends@),
                ..old(self)@
            }),
            match reply {
                Some(m) => reply_of(old(self)@.id, message@, outcome.result) == Some(m@),
                None => reply_of(old(self)@.id, message@, outcome.result) is None,
            },
    {
        let HandlerOutcome { result, sends } = outcome;
        let ghost sends0 = sends@;
        let ghost before = self@;
        let mut sends = sends;
        let mut k: usize = 0;
        let n = sends.len();
        while sends.len() > 0
            invariant
                n == sends0.len(),
                k <= sends0.len(),
                sends@ == sends0.subrange(k as int, sends0.len() as int),
                sends.len() == sends0.len() - k,
                self@ == (ActorView {
                    send_queue: before.send_queue + sends_from(before.id, sends0.take(k as int)),
                    ..before
                }),
            decreases sends.len(),
        {
            let o = sends.remove(0);
            let m = Message { from: Some(self.id.clone()), to: o.to, payload: o.payload };
            let ghost q = self.send_queue@;
            self.send_queue.push_back(m);
            k = k + 1;
            proof {
                assert(sends0.take(k as int) =~= sends0.take(k - 1).push(o));
                assert(sends_from(before.id, sends0.take(k as int)) =~= sends_from(
                    before.id,
                    sends0.take(k - 1),
                ).push(m@));
                assert(messages_view(self.send_queue@) =~= messages_view(q).push(m@));
            }
        }
        assert(sends0.take(k as int) =~= sends0);
        let reply = match result {
            HandlerResult::State(s) => {
                self.state = s;
                None
            },
            HandlerResult::StateAndReply(s, p) => {
                self.state = s;
                match &message.from {
                    Some(f) => Some(Message { from: Some(self.id.clone()), to: f.clone(), payload: p }),
                    None => None,
                }
            },
            _ => None,
        };
        reply
    }
}

/// The state of an actor whose script defines no `init`: an empty object.
pub fn empty_state() -> (r: serde_json::Value)
    ensures
        r == json_object(seq![]),
{
    let entries: Vec<(String, serde_json::Value)> = Vec::new();
    assert(entries_view(entries@) =~= seq![]);
    object_value(entries)
}

/// The initial state of an actor: what its script's `init` returned, or an
/// empty object when the script defines none.
pub fn initial_state(init: Option<serde_json::Value>) -> (r: serde_json::Value)
    ensures
        r == match init {
            Some(v) => v,
            None => json_object(seq![]),
        },
{
    match init {
        Some(v) => v,
        None => empty_state(),
    }
}

} // verus!
