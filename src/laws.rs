//! Properties of the supervisor that hold across its operations.
use vstd::prelude::*;
use vstd::utf8::decode_utf8;
use crate::actor::{reply_of, ActorView, HandlerOutcome, HandlerResult};
use crate::commit::{commit_result, committed, flag_of, trim_end, trim_start, white_space};
use crate::json::{json_parse, json_pretty};
use crate::overlay::live_node;
use crate::path::{node_at, FileKind, NodeView};
use crate::render::file_text;
use crate::message::MessageView;
use crate::system::{
    delivered, has_id, ids_of, ids_unique, index_of, lemma_index_of, paused_after, with_paused,
    without, SystemView,
};
use crate::tick::{
    after_begin, after_handle, handled_all, route_all, routed_of, routed_upto, slot_for, SlotView,
};

verus! {

/// The messages of `ms` that name `id` as recipient, in order.
pub open spec fn addressed(ms: Seq<MessageView>, id: Seq<char>) -> Seq<MessageView>
    decreases ms.len(),
{
    if ms.len() == 0 {
        seq![]
    } else {
        addressed(ms.drop_last(), id) + if ms.last().to == id {
            seq![ms.last()]
        } else {
            seq![]
        }
    }
}

/// The actor table after a whole tick (both phases) of a running system,
/// with `outs[i]` the outcome of the handler of the `i`-th actor.
pub open spec fn tick_actors(a0: Seq<ActorView>, outs: Seq<HandlerOutcome>) -> Seq<ActorView> {
    let b = a0.map_values(|a: ActorView| after_begin(a));
    let sv = a0.map_values(|a: ActorView| slot_for(a));
    route_all(handled_all(b, sv, outs), routed_upto(b, sv, outs, a0.len() as int))
}

/// The messages routed during a whole tick of a running system.
pub open spec fn tick_routed(a0: Seq<ActorView>, outs: Seq<HandlerOutcome>) -> Seq<MessageView> {
    let b = a0.map_values(|a: ActorView| after_begin(a));
    let sv = a0.map_values(|a: ActorView| slot_for(a));
    routed_upto(b, sv, outs, a0.len() as int)
}

proof fn lemma_delivered(a: Seq<ActorView>, m: MessageView)
    requires
        ids_unique(a),
    ensures
        delivered(a, m).len() == a.len(),
        forall|j: int| 0 <= j < a.len() ==> #[trigger] delivered(a, m)[j] == (ActorView {
            mailbox: a[j].mailbox + if a[j].id == m.to { seq![m] } else { seq![] },
            ..a[j]
        }),
{
    assert forall|j: int| 0 <= j < a.len() implies #[trigger] delivered(a, m)[j] == (ActorView {
        mailbox: a[j].mailbox + if a[j].id == m.to { seq![m] } else { seq![] },
        ..a[j]
    }) by {
        if has_id(a, m.to) {
            let i = index_of(a, m.to);
            if j == i {
                assert(a[j].mailbox.push(m) =~= a[j].mailbox + seq![m]);
            } else {
                assert(a[j].mailbox =~= a[j].mailbox + Seq::<MessageView>::empty());
            }
        } else {
            assert(a[j].id != m.to);
            assert(a[j].mailbox =~= a[j].mailbox + Seq::<MessageView>::empty());
        }
    }
}

pub proof fn lemma_route_all(a: Seq<ActorView>, ms: Seq<MessageView>)
    requires
        ids_unique(a),
    ensures
        route_all(a, ms).len() == a.len(),
        ids_unique(route_all(a, ms)),
        forall|j: int| 0 <= j < a.len() ==> #[trigger] route_all(a, ms)[j] == (ActorView {
            mailbox: a[j].mailbox + addressed(ms, a[j].id),
            ..a[j]
        }),
    decreases ms.len(),
{
    if ms.len() == 0 {
        assert forall|j: int| 0 <= j < a.len() implies #[trigger] route_all(a, ms)[j] == (ActorView {
            mailbox: a[j].mailbox + addressed(ms, a[j].id),
            ..a[j]
        }) by {
            assert(a[j].mailbox + addressed(ms, a[j].id) =~= a[j].mailbox);
        }
    } else {
        let prev = route_all(a, ms.drop_last());
        lemma_route_all(a, ms.drop_last());
        lemma_delivered(prev, ms.last());
        assert forall|j: int| 0 <= j < a.len() implies #[trigger] route_all(a, ms)[j] == (ActorView {
            mailbox: a[j].mailbox + addressed(ms, a[j].id),
            ..a[j]
        }) by {
            assert(prev[j].id == a[j].id);
            assert(route_all(a, ms)[j] == delivered(prev, ms.last())[j]);
            assert((a[j].mailbox + addressed(ms.drop_last(), a[j].id)) + (if a[j].id == ms.last().to {
                seq![ms.last()]
            } else {
                seq![]
            }) =~= a[j].mailbox + addressed(ms, a[j].id));
        }
        assert forall|x: int, y: int|
            0 <= x < a.len() && 0 <= y < a.len() && x != y implies route_all(a, ms)[x].id
            != route_all(a, ms)[y].id by {
            assert(route_all(a, ms)[x].id == a[x].id);
            assert(route_all(a, ms)[y].id == a[y].id);
        }
    }
}

proof fn lemma_addressed_contains(ms: Seq<MessageView>, m: MessageView)
    requires
        ms.contains(m),
    ensures
        addressed(ms, m.to).contains(m),
    decreases ms.len(),
{
    if ms.last() == m {
        let tail = seq![m];
        assert(addressed(ms, m.to) == addressed(ms.drop_last(), m.to) + tail);
        assert(addressed(ms, m.to)[addressed(ms.drop_last(), m.to).len() as int] == m);
    } else {
        let k = choose|k: int| 0 <= k < ms.len() && ms[k] == m;
        assert(k < ms.len() - 1);
        assert(ms.drop_last()[k] == m);
        lemma_addressed_contains(ms.drop_last(), m);
        let p = addressed(ms.drop_last(), m.to);
        let k2 = choose|k2: int| 0 <= k2 < p.len() && p[k2] == m;
        assert(addressed(ms, m.to)[k2] == m);
    }
}

proof fn lemma_tick_shape(a0: Seq<ActorView>, outs: Seq<HandlerOutcome>)
    requires
        ids_unique(a0),
        outs.len() == a0.len(),
    ensures
        tick_actors(a0, outs).len() == a0.len(),
        ids_unique(tick_actors(a0, outs)),
        forall|j: int| 0 <= j < a0.len() ==> #[trigger] tick_actors(a0, outs)[j] == (ActorView {
            mailbox: after_handle(after_begin(a0[j]), slot_for(a0[j]), outs[j]).mailbox
                + addressed(tick_routed(a0, outs), a0[j].id),
            ..after_handle(after_begin(a0[j]), slot_for(a0[j]), outs[j])
        }),
{
    let b = a0.map_values(|a: ActorView| after_begin(a));
    let sv = a0.map_values(|a: ActorView| slot_for(a));
    let h = handled_all(b, sv, outs);
    assert forall|x: int, y: int| 0 <= x < h.len() && 0 <= y < h.len() && x != y implies h[x].id
        != h[y].id by {
        assert(h[x].id == a0[x].id);
        assert(h[y].id == a0[y].id);
    }
    lemma_route_all(h, routed_upto(b, sv, outs, a0.len() as int));
}

/// Routing puts each message only into the mailbox of the actor whose id it
/// names, after the messages already there; a message that names no live
/// actor ends in no mailbox. Nothing else about an actor changes.
pub proof fn routing_reaches_only_named_recipients(actors: Seq<ActorView>, ms: Seq<MessageView>)
    requires
        ids_unique(actors),
    ensures
        route_all(actors, ms).len() == actors.len(),
        forall|j: int| 0 <= j < actors.len() ==> #[trigger] route_all(actors, ms)[j] == (ActorView {
            mailbox: actors[j].mailbox + addressed(ms, actors[j].id),
            ..actors[j]
        }),
        forall|j: int, k: int|
            0 <= j < actors.len() && 0 <= k < addressed(ms, actors[j].id).len()
                ==> (#[trigger] addressed(ms, actors[j].id)[k]).to == actors[j].id,
{
    lemma_route_all(actors, ms);
    assert forall|j: int, k: int|
        0 <= j < actors.len() && 0 <= k < addressed(ms, actors[j].id).len() implies (
        #[trigger] addressed(ms, actors[j].id)[k]).to == actors[j].id by {
        lemma_addressed_to(ms, actors[j].id);
    }
}

proof fn lemma_addressed_to(ms: Seq<MessageView>, id: Seq<char>)
    ensures
        forall|k: int| 0 <= k < addressed(ms, id).len() ==> (#[trigger] addressed(ms, id)[k]).to == id,
    decreases ms.len(),
{
    if ms.len() > 0 {
        lemma_addressed_to(ms.drop_last(), id);
    }
}

/// A paused actor is skipped by a tick: no message leaves its mailbox, its
/// state and send queue stay as they were, and its mailbox only grows.
pub proof fn paused_mailbox_not_drained(a0: Seq<ActorView>, outs: Seq<HandlerOutcome>, i: int)
    requires
        ids_unique(a0),
        outs.len() == a0.len(),
        0 <= i < a0.len(),
        a0[i].paused,
    ensures
        slot_for(a0[i]).delivered is None,
        tick_actors(a0, outs)[i].mailbox == a0[i].mailbox + addressed(tick_routed(a0, outs), a0[i].id),
        tick_actors(a0, outs)[i].state == a0[i].state,
        tick_actors(a0, outs)[i].send_queue == a0[i].send_queue,
{
    lemma_tick_shape(a0, outs);
}

/// In one tick an actor's handler runs at most once: the first phase takes
/// at most one message from its mailbox, the head, and the handler is
/// invoked exactly when one was taken.
pub proof fn at_most_one_invocation(a: ActorView)
    ensures
        slot_for(a).delivered is Some ==> a.mailbox == seq![slot_for(a).delivered->0] + after_begin(a).mailbox,
        slot_for(a).delivered is None ==> after_begin(a).mailbox == a.mailbox,
{
    if slot_for(a).delivered is Some {
        assert(a.mailbox =~= seq![a.mailbox[0]] + a.mailbox.drop_first());
    }
}

/// Once spawned, an actor stays listed through sends, pauses, unpauses,
/// ticks and kills of other ids; only a kill naming it removes it.
pub proof fn listed_until_killed(
    a0: Seq<ActorView>,
    id: Seq<char>,
    m: MessageView,
    other: Seq<char>,
    flag: bool,
    outs: Seq<HandlerOutcome>,
)
    requires
        ids_unique(a0),
        ids_of(a0).contains(id),
        outs.len() == a0.len(),
    ensures
        ids_of(delivered(a0, m)).contains(id),
        ids_of(with_paused(a0, other, flag)).contains(id),
        ids_of(tick_actors(a0, outs)).contains(id),
        other != id ==> ids_of(without(a0, other)).contains(id),
        !ids_of(without(a0, id)).contains(id),
{
    let k = choose|k: int| 0 <= k < ids_of(a0).len() && ids_of(a0)[k] == id;
    assert(a0[k].id == id);
    lemma_delivered(a0, m);
    assert(ids_of(delivered(a0, m))[k] == id);
    if has_id(a0, other) {
        let i = index_of(a0, other);
        if i != k {
            assert(ids_of(with_paused(a0, other, flag))[k] == id);
        } else {
            assert(ids_of(with_paused(a0, other, flag))[k] == id);
        }
        if other != id {
            assert(i != k);
            let w = without(a0, other);
            if k < i {
                assert(ids_of(w)[k] == id);
            } else {
                assert(ids_of(w)[k - 1] == id);
            }
        }
    } else {
        assert(ids_of(with_paused(a0, other, flag))[k] == id);
        assert(ids_of(without(a0, other))[k] == id);
    }
    lemma_tick_shape(a0, outs);
    assert(ids_of(tick_actors(a0, outs))[k] == id);
    lemma_index_of(a0, k);
    let w = without(a0, id);
    assert forall|x: int| 0 <= x < w.len() implies ids_of(w)[x] != id by {
        if x < k {
            assert(w[x] == a0[x]);
        } else {
            assert(w[x] == a0[x + 1]);
        }
    }
}

/// Sending a message to a running actor with an empty mailbox in a running
/// system, then ticking, invokes that actor's handler exactly once, on that
/// message (so with the sent payload).
pub proof fn send_then_tick(a0: Seq<ActorView>, m: MessageView)
    requires
        ids_unique(a0),
        has_id(a0, m.to),
        !a0[index_of(a0, m.to)].paused,
        a0[index_of(a0, m.to)].mailbox.len() == 0,
    ensures
        ({
            let a1 = delivered(a0, m);
            let i = index_of(a0, m.to);
            &&& a1[i].id == m.to
            &&& slot_for(a1[i]).delivered == Some(m)
            &&& after_begin(a1[i]).mailbox.len() == 0
        }),
{
    let i = index_of(a0, m.to);
    lemma_delivered(a0, m);
    let a1 = delivered(a0, m);
    assert(a1[i].mailbox =~= seq![m]);
}

/// Pausing the same target twice has the effect of pausing it once.
pub proof fn pause_idempotent(s: SystemView, id: Option<Seq<char>>)
    requires
        ids_unique(s.actors),
    ensures
        paused_after(paused_after(s, id, true), id, true) == paused_after(s, id, true),
{
    match id {
        Some(x) => {
            let a1 = with_paused(s.actors, x, true);
            if has_id(s.actors, x) {
                let i = index_of(s.actors, x);
                assert forall|p: int, q: int|
                    0 <= p < a1.len() && 0 <= q < a1.len() && p != q implies a1[p].id != a1[q].id by {
                    assert(a1[p].id == s.actors[p].id);
                    assert(a1[q].id == s.actors[q].id);
                }
                lemma_index_of(a1, i);
                assert(with_paused(a1, x, true) =~= a1);
            } else {
                assert(a1 == s.actors);
            }
        },
        None => {},
    }
}

/// A handler that answers a message from `A` with a pair `(state, reply)`
/// makes the tick route a message from the actor to `A` carrying `reply`;
/// when `A` is live it lands in `A`'s mailbox.
pub proof fn reply_routed_to_sender(
    a0: Seq<ActorView>,
    outs: Seq<HandlerOutcome>,
    i: int,
    s: serde_json::Value,
    reply: serde_json::Value,
)
    requires
        ids_unique(a0),
        outs.len() == a0.len(),
        0 <= i < a0.len(),
        !a0[i].paused,
        a0[i].mailbox.len() > 0,
        a0[i].mailbox[0].from is Some,
        outs[i].result == HandlerResult::StateAndReply(s, reply),
    ensures
        ({
            let r = MessageView { from: Some(a0[i].id), to: a0[i].mailbox[0].from->0, payload: reply };
            &&& tick_routed(a0, outs).contains(r)
            &&& has_id(a0, r.to) ==> tick_actors(a0, outs)[index_of(a0, r.to)].mailbox.contains(r)
        }),
{
    let b = a0.map_values(|a: ActorView| after_begin(a));
    let sv = a0.map_values(|a: ActorView| slot_for(a));
    let r = MessageView { from: Some(a0[i].id), to: a0[i].mailbox[0].from->0, payload: reply };
    assert(b[i].id == a0[i].id);
    assert(sv[i].delivered == Some(a0[i].mailbox[0]));
    assert(reply_of(b[i].id, a0[i].mailbox[0], outs[i].result) == Some(r));
    let part = routed_of(b[i], sv[i], outs[i]);
    assert(part[part.len() - 1] == r);
    lemma_routed_upto_contains(b, sv, outs, i, a0.len() as int, part.len() - 1);
    lemma_addressed_contains(tick_routed(a0, outs), r);
    if has_id(a0, r.to) {
        let j = index_of(a0, r.to);
        lemma_tick_shape(a0, outs);
        let base = after_handle(after_begin(a0[j]), slot_for(a0[j]), outs[j]).mailbox;
        let add = addressed(tick_routed(a0, outs), a0[j].id);
        let k = choose|k: int| 0 <= k < add.len() && add[k] == r;
        assert(tick_actors(a0, outs)[j].mailbox[base.len() + k] == r);
    }
}

proof fn lemma_routed_upto_contains(
    b: Seq<ActorView>,
    sv: Seq<SlotView>,
    outs: Seq<HandlerOutcome>,
    i: int,
    n: int,
    k: int,
)
    requires
        0 <= i < n,
        0 <= k < routed_of(b[i], sv[i], outs[i]).len(),
    ensures
        routed_upto(b, sv, outs, n).contains(routed_of(b[i], sv[i], outs[i])[k]),
    decreases n,
{
    let x = routed_of(b[i], sv[i], outs[i])[k];
    let prev = routed_upto(b, sv, outs, n - 1);
    if i == n - 1 {
        assert(routed_upto(b, sv, outs, n)[prev.len() + k] == x);
    } else {
        lemma_routed_upto_contains(b, sv, outs, i, n - 1, k);
        let p = choose|p: int| 0 <= p < prev.len() && prev[p] == x;
        assert(routed_upto(b, sv, outs, n)[p] == x);
    }
}

/// After a successful commit to an actor's `state` file, the file still
/// exists and reading it gives the pretty text of exactly the JSON value
/// that was written.
pub proof fn state_write_then_read(s: SystemView, p: Seq<char>, data: Seq<u8>, id: Seq<char>)
    requires
        ids_unique(s.actors),
        node_at(p) == Some(NodeView::ActorFile(id, FileKind::State)),
        commit_result(s, p, data) is Ok,
    ensures
        live_node(committed(s, p, data), p) == Some(NodeView::ActorFile(id, FileKind::State)),
        file_text(committed(s, p, data), NodeView::ActorFile(id, FileKind::State)) == json_pretty(
            json_parse(decode_utf8(data))->0,
        ),
{
    let i = index_of(s.actors, id);
    let s1 = committed(s, p, data);
    assert(s1.actors[i].id == id);
    assert forall|x: int, y: int|
        0 <= x < s1.actors.len() && 0 <= y < s1.actors.len() && x != y implies s1.actors[x].id
        != s1.actors[y].id by {
        assert(s1.actors[x].id == s.actors[x].id);
        assert(s1.actors[y].id == s.actors[y].id);
    }
    lemma_index_of(s1.actors, i);
}

/// The two phases of a tick compose to [`tick_actors`]: when `begin_tick`
/// took `slot_for` of each actor and `tick` then applied `outs`, the table
/// that results is `tick_actors(a0, outs)`.
pub proof fn tick_phases_compose(a0: Seq<ActorView>, slots: Seq<SlotView>, outs: Seq<HandlerOutcome>)
    requires
        slots.len() == a0.len(),
        forall|i: int| 0 <= i < a0.len() ==> #[trigger] slots[i] == slot_for(a0[i]),
    ensures
        route_all(
            handled_all(a0.map_values(|a: ActorView| after_begin(a)), slots, outs),
            routed_upto(a0.map_values(|a: ActorView| after_begin(a)), slots, outs, a0.len() as int),
        ) == tick_actors(a0, outs),
{
    assert(slots =~= a0.map_values(|a: ActorView| slot_for(a)));
}

/// The texts `true` and `false`, with no white space to trim, spell the
/// two flags.
pub proof fn flag_words()
    ensures
        flag_of("true"@) == Some(true),
        flag_of("false"@) == Some(false),
{
    reveal_strlit("true");
    reveal_strlit("false");
    let t = "true"@;
    let f = "false"@;
    assert(!white_space(t[0]) && !white_space(t.last()));
    assert(!white_space(f[0]) && !white_space(f.last()));
    assert(trim_start(t) == t);
    assert(trim_end(t) == t);
    assert(trim_start(f) == f);
    assert(trim_end(f) == f);
}

/// Committing the same text to an actor's `paused` file twice has the
/// effect of committing it once: the second commit succeeds and changes
/// nothing. With the text `true`, two pauses are one.
pub proof fn paused_write_idempotent(s: SystemView, p: Seq<char>, data: Seq<u8>, id: Seq<char>)
    requires
        ids_unique(s.actors),
        node_at(p) == Some(NodeView::ActorFile(id, FileKind::Paused)),
        commit_result(s, p, data) is Ok,
    ensures
        commit_result(committed(s, p, data), p, data) is Ok,
        committed(committed(s, p, data), p, data) == committed(s, p, data),
{
    let i = index_of(s.actors, id);
    let s1 = committed(s, p, data);
    assert(s1.actors[i].id == id);
    assert forall|x: int, y: int|
        0 <= x < s1.actors.len() && 0 <= y < s1.actors.len() && x != y implies s1.actors[x].id
        != s1.actors[y].id by {
        assert(s1.actors[x].id == s.actors[x].id);
        assert(s1.actors[y].id == s.actors[y].id);
    }
    lemma_index_of(s1.actors, i);
    assert(s1.actors.update(i, s1.actors[i]) =~= s1.actors);
}

} // verus!
