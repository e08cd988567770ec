//! One pass of the scheduler, in two phases around the handler invocations:
//! `begin_tick` takes from each running actor the head of its send queue and
//! the head of its mailbox; the script host runs the handlers on the taken
//! messages; `tick` applies their outcomes and routes every produced message
//! into its recipient's mailbox.
use vstd::prelude::*;
use crate::actor::{reply_of, sends_from, state_after, ActorView, HandlerOutcome};
use crate::message::{messages_view, Message, MessageView, Props};
use crate::system::{actors_view, delivered, System, SystemView};
use crate::laws::{addressed, lemma_route_all};

verus! {

/// What `begin_tick` took from one actor: the head of its send queue and
/// the head of its mailbox (the message its handler is to be invoked on).
#[derive(Debug)]
pub struct Slot {
    pub forwarded: Option<Message>,
    pub delivered: Option<Message>,
}

pub ghost struct SlotView {
    pub forwarded: Option<MessageView>,
    pub delivered: Option<MessageView>,
}

pub open spec fn opt_message_view(m: Option<Message>) -> Option<MessageView> {
    match m {
        Some(x) => Some(x@),
        None => None,
    }
}

impl View for Slot {
    type V = SlotView;

    open spec fn view(&self) -> SlotView {
        SlotView { forwarded: opt_message_view(self.forwarded), delivered: opt_message_view(self.delivered) }
    }
}

/// The slots of one tick, one per actor in table order.
#[derive(Debug)]
pub struct TickPlan {
    pub slots: Vec<Slot>,
}

pub open spec fn slots_view(s: Seq<Slot>) -> Seq<SlotView> {
    s.map_values(|x: Slot| x@)
}

pub open spec fn front(q: Seq<MessageView>) -> Option<MessageView> {
    if q.len() > 0 {
        Some(q[0])
    } else {
        None
    }
}

pub open spec fn rest(q: Seq<MessageView>) -> Seq<MessageView> {
    if q.len() > 0 {
        q.drop_first()
    } else {
        q
    }
}

/// What the first phase takes from an actor: nothing from a paused one.
pub open spec fn slot_for(a: ActorView) -> SlotView {
    if a.paused {
        SlotView { forwarded: None, delivered: None }
    } else {
        SlotView { forwarded: front(a.send_queue), delivered: front(a.mailbox) }
    }
}

/// An actor after the first phase: a paused one is left as it was.
pub open spec fn after_begin(a: ActorView) -> ActorView {
    if a.paused {
        a
    } else {
        ActorView { mailbox: rest(a.mailbox), send_queue: rest(a.send_queue), ..a }
    }
}

/// An actor after its handler's outcome is applied; an actor whose handler
/// was not invoked is unchanged.
pub open spec fn after_handle(a: ActorView, slot: SlotView, out: HandlerOutcome) -> ActorView {
    match slot.delivered {
        Some(_) => ActorView {
            state: state_after(a.state, out.result),
            send_queue: a.send_queue + sends_from(a.id, out.sends@),
            ..a
        },
        None => a,
    }
}

pub open spec fn opt_seq(m: Option<MessageView>) -> Seq<MessageView> {
    match m {
        Some(x) => seq![x],
        None => seq![],
    }
}

/// The messages one actor contributes to routing: its forwarded send,
/// then the reply its handler produced.
pub open spec fn routed_of(a: ActorView, slot: SlotView, out: HandlerOutcome) -> Seq<MessageView> {
    opt_seq(slot.forwarded) + match slot.delivered {
        Some(m) => opt_seq(reply_of(a.id, m, out.result)),
        None => seq![],
    }
}

/// The messages the first `n` actors contribute, in table order.
pub open spec fn routed_upto(
    actors: Seq<ActorView>,
    slots: Seq<SlotView>,
    outs: Seq<HandlerOutcome>,
    n: int,
) -> Seq<MessageView>
    decreases n,
{
    if n <= 0 {
        seq![]
    } else {
        routed_upto(actors, slots, outs, n - 1) + routed_of(actors[n - 1], slots[n - 1], outs[n - 1])
    }
}

/// The table after each message of `ms` is delivered, in order.
pub open spec fn route_all(actors: Seq<ActorView>, ms: Seq<MessageView>) -> Seq<ActorView>
    decreases ms.len(),
{
    if ms.len() == 0 {
        actors
    } else {
        delivered(route_all(actors, ms.drop_last()), ms.last())
    }
}

/// The table after the outcomes are applied, before routing.
pub open spec fn handled_all(
    actors: Seq<ActorView>,
    slots: Seq<SlotView>,
    outs: Seq<HandlerOutcome>,
) -> Seq<ActorView> {
    Seq::new(actors.len(), |i: int| after_handle(actors[i], slots[i], outs[i]))
}

impl System {
    /// Takes the pending spawn requests, in order; a paused system keeps them.
    pub fn take_spawn_queue(&mut self) -> (r: Vec<Props>)
        requires
            old(self).wf(),
        ensures
            final(self).wf(),
            old(self)@.paused ==> r@.len() == 0 && final(self)@ == old(self)@,
            !old(self)@.paused ==> crate::message::props_view(r@) == old(self)@.spawn_queue
                && final(self)@ == (SystemView { spawn_queue: seq![], ..old(self)@ }),
    {
        if self.paused {
            return Vec::new();
        }
        let mut r: Vec<Props> = Vec::new();
        std::mem::swap(&mut r, &mut self.spawn_queue);
        assert(crate::message::props_view(self.spawn_queue@) =~= seq![]);
        r
    }

    /// First phase of a tick. A paused system does nothing and gives `None`.
    /// Otherwise each running actor gives up the head of its send queue and
    /// the head of its mailbox; paused actors give up nothing.
    pub fn begin_tick(&mut self) -> (r: Option<TickPlan>)
        requires
            old(self).wf(),
        ensures
            final(self).wf(),
            old(self)@.paused ==> r is None && final(self)@ == old(self)@,
            !old(self)@.paused ==> r is Some && {
                let plan = r->0;
                &&& plan.slots@.len() == old(self)@.actors.len()
                &&& forall|i: int| 0 <= i < plan.slots@.len()
                    ==> (#[trigger] plan.slots@[i])@ == slot_for(old(self)@.actors[i])
                &&& final(self)@ == (SystemView {
                    actors: old(self)@.actors.map_values(|a: ActorView| after_begin(a)),
                    ..old(self)@
                })
            },
    {
        if self.paused {
            return None;
        }
        let ghost a0 = self@.actors;
        let n = self.actors.len();
        let mut slots: Vec<Slot> = Vec::new();
        let mut i: usize = 0;
        while i < n
            invariant
                n == self.actors@.len(),
                n == a0.len(),
                i <= n,
                slots@.len() == i,
                !self.paused,
                self@.spawn_queue == old(self)@.spawn_queue,
                self@.tick_ms == old(self)@.tick_ms,
                forall|j: int| 0 <= j < i ==> (#[trigger] slots@[j])@ == slot_for(a0[j]),
                forall|j: int| 0 <= j < i ==> #[trigger] self@.actors[j] == after_begin(a0[j]),
                forall|j: int| i <= j < n ==> #[trigger] self@.actors[j] == a0[j],
            decreases n - i,
        {
            let ghost before = self.actors@;
            proof {
                assert(self@.actors[i as int] == a0[i as int]);
                assert(self@.actors[i as int] == self.actors@[i as int]@);
            }
            if self.actors[i].paused {
                slots.push(Slot { forwarded: None, delivered: None });
            } else {
                let ghost act = self.actors@[i as int];
                assert(act@ == a0[i as int]);
                let forwarded = self.actors[i].send_queue.pop_front();
                let delivered = self.actors[i].mailbox.pop_front();
                let slot = Slot { forwarded, delivered };
                proof {
                    let now = self.actors@[i as int];
                    assert(self@.actors[i as int] == now@);
                    assert(now.id == act.id && now.script == act.script && now.state == act.state);
                    assert(now.paused == act.paused);
                    assert(crate::message::messages_view(now.send_queue@) =~= rest(
                        crate::message::messages_view(act.send_queue@),
                    ));
                    assert(crate::message::messages_view(now.mailbox@) =~= rest(
                        crate::message::messages_view(act.mailbox@),
                    ));
                    assert(self@.actors[i as int] == after_begin(a0[i as int]));
                    assert(slot@ == slot_for(a0[i as int]));
                }
                slots.push(slot);
            }
            proof {
                assert forall|j: int| 0 <= j < n && j != i implies #[trigger] self@.actors[j] == actors_view(before)[j] by {}
            }
            i = i + 1;
        }
        proof {
            assert(self@.actors =~= a0.map_values(|a: ActorView| after_begin(a)));
            assert forall|x: int, y: int|
                0 <= x < n && 0 <= y < n && x != y implies self@.actors[x].id != self@.actors[y].id by {
                assert(self@.actors[x].id == a0[x].id);
                assert(self@.actors[y].id == a0[y].id);
            }
        }
        Some(TickPlan { slots })
    }

    /// Second phase of a tick, after the script host ran each handler on the
    /// message `begin_tick` took for it (`outcomes[i]` for `plan.slots[i]`;
    /// entries of slots without a message are ignored). Each handled actor
    /// takes its new state and queues its sends; then every forwarded send
    /// and every reply, in table order, is delivered to its recipient's
    /// mailbox, or dropped when no actor has that id.
    pub fn tick(&mut self, plan: TickPlan, outcomes: Vec<HandlerOutcome>)
        requires
            old(self).wf(),
            plan.slots@.len() == old(self)@.actors.len(),
            outcomes@.len() == plan.slots@.len(),
        ensures
            final(self).wf(),
            final(self)@ == (SystemView {
                actors: route_all(
                    handled_all(old(self)@.actors, slots_view(plan.slots@), outcomes@),
                    routed_upto(
                        old(self)@.actors,
                        slots_view(plan.slots@),
                        outcomes@,
                        old(self)@.actors.len() as int,
                    ),
                ),
                ..old(self)@
            }),
            final(self)@.actors.len() == old(self)@.actors.len(),
            forall|j: int| 0 <= j < old(self)@.actors.len() ==> #[trigger] final(self)@.actors[j] == ({
                let h = after_handle(old(self)@.actors[j], slots_view(plan.slots@)[j], outcomes@[j]);
                ActorView {
                    mailbox: h.mailbox + addressed(
                        routed_upto(
                            old(self)@.actors,
                            slots_view(plan.slots@),
                            outcomes@,
                            old(self)@.actors.len() as int,
                        ),
                        old(self)@.actors[j].id,
                    ),
                    ..h
                }
            }),
    {
        let ghost a0 = self@.actors;
        let ghost sv = slots_view(plan.slots@);
        let ghost outs = outcomes@;
        let n = self.actors.len();
        let TickPlan { slots } = plan;
        let mut slots = slots;
        let mut outcomes = outcomes;
        let mut routed: Vec<Message> = Vec::new();
        let mut k: usize = 0;
        while k < n
            invariant
                n == a0.len(),
                n == sv.len(),
                n == outs.len(),
                n == self.actors@.len(),
                k <= n,
                slots@.len() == n - k,
                outcomes@.len() == n - k,
                forall|j: int| 0 <= j < n - k ==> (#[trigger] slots@[j])@ == sv[j + k],
                forall|j: int| 0 <= j < n - k ==> #[trigger] outcomes@[j] == outs[j + k],
                forall|j: int| 0 <= j < k ==> #[trigger] self@.actors[j] == after_handle(a0[j], sv[j], outs[j]),
                forall|j: int| k <= j < n ==> #[trigger] self@.actors[j] == a0[j],
                messages_view(routed@) == routed_upto(a0, sv, outs, k as int),
                self@.spawn_queue == old(self)@.spawn_queue,
                self@.paused == old(self)@.paused,
                self@.tick_ms == old(self)@.tick_ms,
            decreases n - k,
        {
            let ghost before = self.actors@;
            let ghost r0 = routed@;
            proof {
                assert(slots@[0]@ == sv[k as int]);
                assert(outcomes@[0] == outs[k as int]);
                assert(self@.actors[k as int] == a0[k as int]);
                assert(self@.actors[k as int] == self.actors@[k as int]@);
            }
            let slot = slots.remove(0);
            let out = outcomes.remove(0);
            let Slot { forwarded, delivered } = slot;
            match forwarded {
                Some(f) => {
                    routed.push(f);
                },
                None => {},
            }
            let ghost r1 = routed@;
            match delivered {
                Some(m) => {
                    let reply = self.actors[k].run(&m, out);
                    match reply {
                        Some(r) => {
                            routed.push(r);
                        },
                        None => {},
                    }
                },
                None => {},
            }
            proof {
                assert(messages_view(routed@) =~= messages_view(r0) + routed_of(a0[k as int], sv[k as int], outs[k as int]));
                assert(self@.actors[k as int] == after_handle(a0[k as int], sv[k as int], outs[k as int]));
                assert forall|j: int| 0 <= j < n && j != k implies #[trigger] self@.actors[j] == actors_view(before)[j] by {}
            }
            k = k + 1;
        }
        proof {
            assert(self@.actors =~= handled_all(a0, sv, outs));
            assert forall|x: int, y: int|
                0 <= x < n && 0 <= y < n && x != y implies self@.actors[x].id != self@.actors[y].id by {
                assert(self@.actors[x].id == a0[x].id);
                assert(self@.actors[y].id == a0[y].id);
            }
        }
        let ghost handled = self@.actors;
        let ghost rv = messages_view(routed@);
        proof {
            lemma_route_all(handled, rv);
            assert forall|j: int| 0 <= j < n implies #[trigger] handled[j].id == a0[j].id by {}
        }
        let mut j: usize = 0;
        let total = routed.len();
        while routed.len() > 0
            invariant
                total == rv.len(),
                j <= total,
                routed@.len() == total - j,
                forall|x: int| 0 <= x < total - j ==> (#[trigger] routed@[x])@ == rv[x + j],
                self.wf(),
                self@ == (SystemView { actors: route_all(handled, rv.take(j as int)), ..old(self)@ }),
            decreases routed.len(),
        {
            proof {
                assert(routed@[0]@ == rv[j as int]);
            }
            let m = routed.remove(0);
            self.send(m);
            proof {
                assert(rv.take(j + 1).drop_last() =~= rv.take(j as int));
            }
            j = j + 1;
        }
        assert(rv.take(j as int) =~= rv);
    }
}

} // verus!
