//! The supervisor: the actor table, the pending spawn queue, the system-wide
//! pause flag and the tick period, with the control operations on them.
use vstd::prelude::*;
use crate::actor::{Actor, ActorView};
use crate::message::{Message, MessageView, Props, PropsView, props_view};
use crate::text::{join_text, same_text};

verus! {

/// The tick period a system starts with, in milliseconds.
pub const DEFAULT_TICK: u64 = 2000;

/// The shortest tick period accepted, in milliseconds.
pub const MIN_TICK: u64 = 100;

/// The length of a generated actor id.
pub const ID_LEN: usize = 21;

/// Errors of the supervisor's operations.
#[derive(Debug)]
pub enum EosError {
    /// A spawn or rename named an id that a live actor already has.
    IdAlreadyExists(String),
    /// A tick period below the minimum was requested.
    TickTooShort(u64),
}

impl EosError {
    /// The human-readable message of the error.
    pub fn message(&self) -> (r: String)
        ensures
            match self {
                EosError::IdAlreadyExists(id) => r@ == id_exists_text(id@),
                EosError::TickTooShort(_) => r@ == tick_too_short_text(),
            },
    {
        match self {
            EosError::IdAlreadyExists(id) => {
                let head = join_text("Actor with ID '", id.as_str());
                join_text(head.as_str(), "' already exists")
            },
            EosError::TickTooShort(_) => String::from_str("tick must be at least 100 ms"),
        }
    }
}

pub open spec fn id_exists_text(id: Seq<char>) -> Seq<char> {
    "Actor with ID '"@ + id + "' already exists"@
}

pub open spec fn tick_too_short_text() -> Seq<char> {
    "tick must be at least 100 ms"@
}

pub type EosResult<T> = Result<T, EosError>;

/// The whole runtime state shared by the tick task, the control endpoint
/// and the filesystem overlay.
#[derive(Debug)]
pub struct System {
    pub spawn_queue: Vec<Props>,
    pub actors: Vec<Actor>,
    pub paused: bool,
    pub tick_ms: u64,
}

pub ghost struct SystemView {
    pub spawn_queue: Seq<PropsView>,
    pub actors: Seq<ActorView>,
    pub paused: bool,
    pub tick_ms: u64,
}

pub open spec fn actors_view(s: Seq<Actor>) -> Seq<ActorView> {
    s.map_values(|a: Actor| a@)
}

impl View for System {
    type V = SystemView;

    open spec fn view(&self) -> SystemView {
        SystemView {
            spawn_queue: props_view(self.spawn_queue@),
            actors: actors_view(self.actors@),
            paused: self.paused,
            tick_ms: self.tick_ms,
        }
    }
}

/// The ids of the actors, in table order.
pub open spec fn ids_of(actors: Seq<ActorView>) -> Seq<Seq<char>> {
    actors.map_values(|a: ActorView| a.id)
}

/// No two actors share an id.
pub open spec fn ids_unique(actors: Seq<ActorView>) -> bool {
    forall|i: int, j: int|
        0 <= i < actors.len() && 0 <= j < actors.len() && i != j ==> actors[i].id != actors[j].id
}

/// Some actor of the table has this id.
pub open spec fn has_id(actors: Seq<ActorView>, id: Seq<char>) -> bool {
    exists|i: int| 0 <= i < actors.len() && actors[i].id == id
}

/// The position of the actor with this id (meaningful when `has_id`).
pub open spec fn index_of(actors: Seq<ActorView>, id: Seq<char>) -> int {
    choose|i: int| 0 <= i < actors.len() && actors[i].id == id
}

/// The table after removing the actor with this id, if any.
pub open spec fn without(actors: Seq<ActorView>, id: Seq<char>) -> Seq<ActorView> {
    if has_id(actors, id) {
        actors.remove(index_of(actors, id))
    } else {
        actors
    }
}

/// The table after removing each of `ids` in turn.
pub open spec fn without_all(actors: Seq<ActorView>, ids: Seq<Seq<char>>) -> Seq<ActorView>
    decreases ids.len(),
{
    if ids.len() == 0 {
        actors
    } else {
        without(without_all(actors, ids.drop_last()), ids.last())
    }
}

/// The table after `m` is delivered: appended to the mailbox of the actor
/// that `m` names, or dropped when no actor has that id.
pub open spec fn delivered(actors: Seq<ActorView>, m: MessageView) -> Seq<ActorView> {
    if has_id(actors, m.to) {
        let i = index_of(actors, m.to);
        actors.update(i, ActorView { mailbox: actors[i].mailbox.push(m), ..actors[i] })
    } else {
        actors
    }
}

/// The table after the paused flag of the actor with this id is set to `flag`.
pub open spec fn with_paused(actors: Seq<ActorView>, id: Seq<char>, flag: bool) -> Seq<ActorView> {
    if has_id(actors, id) {
        let i = index_of(actors, id);
        actors.update(i, ActorView { paused: flag, ..actors[i] })
    } else {
        actors
    }
}

/// The effect of a pause (`flag` true) or unpause request: on the named
/// actor when an id is given, on the whole system otherwise.
pub open spec fn paused_after(s: SystemView, id: Option<Seq<char>>, flag: bool) -> SystemView {
    match id {
        Some(x) => SystemView { actors: with_paused(s.actors, x, flag), ..s },
        None => SystemView { paused: flag, ..s },
    }
}

/// The text views of a sequence of strings.
pub open spec fn texts_view(s: Seq<String>) -> Seq<Seq<char>> {
    s.map_values(|t: String| t@)
}

pub proof fn lemma_index_of(actors: Seq<ActorView>, i: int)
    requires
        ids_unique(actors),
        0 <= i < actors.len(),
    ensures
        has_id(actors, actors[i].id),
        index_of(actors, actors[i].id) == i,
{
    assert(actors[i].id == actors[i].id);
}

/// A character of the URL-safe alphabet that generated ids are drawn from.
pub open spec fn url_safe(c: char) -> bool {
    ('a' <= c <= 'z') || ('A' <= c <= 'Z') || ('0' <= c <= '9') || c == '_' || c == '-'
}

/// Relies on `nanoid::format` with the URL-safe alphabet: a random id of
/// exactly `size` characters, each drawn from that alphabet.
#[verifier::external_body]
fn fresh_id(size: usize) -> (r: String)
    ensures
        r@.len() == size,
        forall|i: int| 0 <= i < r@.len() ==> url_safe(#[trigger] r@[i]),
{
    nanoid::format(nanoid::rngs::default, &nanoid::alphabet::SAFE, size)
}

/// The record of a newly spawned actor.
pub open spec fn spawned_view(id: Seq<char>, script: Seq<char>, state: serde_json::Value) -> ActorView {
    ActorView { id, mailbox: seq![], send_queue: seq![], script, state, paused: false }
}

/// The table after the actor with id `from` takes the id `to`.
pub open spec fn renamed(actors: Seq<ActorView>, from: Seq<char>, to: Seq<char>) -> Seq<ActorView> {
    if has_id(actors, from) {
        let i = index_of(actors, from);
        actors.update(i, ActorView { id: to, ..actors[i] })
    } else {
        actors
    }
}

impl System {
    /// The system is well formed: ids are unique and the tick period is at
    /// least the minimum.
    pub open spec fn wf(&self) -> bool {
        &&& ids_unique(self@.actors)
        &&& self.tick_ms >= MIN_TICK
    }

    /// An empty, running system with the default tick period.
    pub fn new() -> (r: System)
        ensures
            r.wf(),
            r@.actors == Seq::<ActorView>::empty(),
            r@.spawn_queue == Seq::<PropsView>::empty(),
            !r@.paused,
            r@.tick_ms == DEFAULT_TICK,
    {
        let r = System { spawn_queue: Vec::new(), actors: Vec::new(), paused: false, tick_ms: DEFAULT_TICK };
        assert(r@.actors =~= Seq::<ActorView>::empty());
        assert(r@.spawn_queue =~= Seq::<PropsView>::empty());
        r
    }

    /// The position of the actor with this id.
    pub fn find(&self, id: &str) -> (r: Option<usize>)
        requires
            self.wf(),
        ensures
            match r {
                Some(i) => i < self@.actors.len() && self@.actors[i as int].id == id@
                    && index_of(self@.actors, id@) == i as int,
                None => !has_id(self@.actors, id@),
            },
    {
        let mut i: usize = 0;
        while i < self.actors.len()
            invariant
                i <= self@.actors.len(),
                ids_unique(self@.actors),
                forall|k: int| 0 <= k < i ==> self@.actors[k].id != id@,
            decreases self.actors.len() - i,
        {
            if same_text(self.actors[i].id.as_str(), id) {
                proof {
                    lemma_index_of(self@.actors, i as int);
                }
                return Some(i);
            }
            i = i + 1;
        }
        None
    }


    /// The id a spawn request takes: the requested one, or a freshly
    /// generated one. Chosen before the script's `init` runs, so that `init`
    /// already works under the actor's id.
    pub fn spawn_id(requested: Option<String>) -> (r: String)
        ensures
            requested is Some ==> r@ == requested->0@,
            requested is None ==> r@.len() == ID_LEN && forall|i: int|
                0 <= i < r@.len() ==> url_safe(#[trigger] r@[i]),
    {
        match requested {
            Some(x) => x,
            None => fresh_id(ID_LEN),
        }
    }

    /// Spawns an actor from `props` with the initial state that its script's
    /// `init` produced. The id is the requested one, or a generated one.
    /// Fails with `IdAlreadyExists` when a live actor has that id.
    pub fn spawn_actor(&mut self, props: Props, state: serde_json::Value) -> (r: EosResult<String>)
        requires
            old(self).wf(),
        ensures
            final(self).wf(),
            props.id is Some ==> (r is Ok <==> !has_id(old(self)@.actors, props@.id->0)),
            match r {
                Ok(id) => {
                    &&& props.id is Some ==> id@ == props@.id->0
                    &&& props.id is None ==> id@.len() == ID_LEN
                        && forall|i: int| 0 <= i < id@.len() ==> url_safe(#[trigger] id@[i])
                    &&& !has_id(old(self)@.actors, id@)
                    &&& final(self)@ == SystemView {
                        actors: old(self)@.actors.push(spawned_view(id@, props@.script, state)),
                        ..old(self)@
                    }
                },
                Err(EosError::IdAlreadyExists(id)) => {
                    &&& props.id is Some ==> id@ == props@.id->0
                    &&& has_id(old(self)@.actors, id@)
                    &&& final(self)@ == old(self)@
                },
                Err(_) => false,
            },
    {
        let Props { id, script } = props;
        let id = System::spawn_id(id);
        if let Some(_) = self.find(id.as_str()) {
            return Err(EosError::IdAlreadyExists(id));
        }
        let actor = Actor::new(id.clone(), script, state);
        let ghost a0 = self.actors@;
        self.actors.push(actor);
        assert(actors_view(self.actors@) =~= actors_view(a0).push(actor@));
        Ok(id)
    }

    /// Removes the actor with this id, with its queues; an absent id is
    /// tolerated.
    pub fn kill_actor(&mut self, id: &str)
        requires
            old(self).wf(),
        ensures
            final(self).wf(),
            final(self)@ == (SystemView { actors: without(old(self)@.actors, id@), ..old(self)@ }),
    {
        if let Some(i) = self.find(id) {
            let ghost a0 = self.actors@;
            let _ = self.actors.remove(i);
            assert(actors_view(self.actors@) =~= actors_view(a0).remove(i as int));
        }
    }

    /// Removes each actor named in `ids`, in order; absent ids are tolerated.
    pub fn kill_actors(&mut self, ids: &Vec<String>)
        requires
            old(self).wf(),
        ensures
            final(self).wf(),
            final(self)@ == (SystemView {
                actors: without_all(old(self)@.actors, texts_view(ids@)),
                ..old(self)@
            }),
    {
        let mut k: usize = 0;
        while k < ids.len()
            invariant
                k <= ids@.len(),
                self.wf(),
                self@ == (SystemView {
                    actors: without_all(old(self)@.actors, texts_view(ids@).take(k as int)),
                    ..old(self)@
                }),
            decreases ids.len() - k,
        {
            self.kill_actor(ids[k].as_str());
            assert(texts_view(ids@).take(k + 1).drop_last() =~= texts_view(ids@).take(k as int));
            k = k + 1;
        }
        assert(texts_view(ids@).take(k as int) =~= texts_view(ids@));
    }

    /// Delivers `msg` to the mailbox of the actor it names; a message to an
    /// unknown recipient is dropped.
    pub fn send(&mut self, msg: Message)
        requires
            old(self).wf(),
        ensures
            final(self).wf(),
            final(self)@ == (SystemView { actors: delivered(old(self)@.actors, msg@), ..old(self)@ }),
    {
        if let Some(i) = self.find(msg.to.as_str()) {
            let ghost a0 = self.actors@;
            let ghost m = msg@;
            let ghost q0 = self.actors@[i as int].mailbox@;
            self.actors[i].mailbox.push_back(msg);
            assert(crate::message::messages_view(self.actors@[i as int].mailbox@)
                =~= crate::message::messages_view(q0).push(m));
            assert(actors_view(self.actors@) =~= actors_view(a0).update(
                i as int,
                ActorView { mailbox: actors_view(a0)[i as int].mailbox.push(m), ..actors_view(a0)[i as int] },
            ));
        }
    }

    fn set_paused(&mut self, id: Option<String>, flag: bool)
        requires
            old(self).wf(),
        ensures
            final(self).wf(),
            final(self)@ == paused_after(old(self)@, crate::message::opt_text_view(id), flag),
    {
        match id {
            Some(x) => {
                if let Some(i) = self.find(x.as_str()) {
                    let ghost a0 = self.actors@;
                    self.actors[i].paused = flag;
                    assert(actors_view(self.actors@) =~= actors_view(a0).update(
                        i as int,
                        ActorView { paused: flag, ..actors_view(a0)[i as int] },
                    ));
                }
            },
            None => {
                self.paused = flag;
            },
        }
    }

    /// Pauses the named actor (absent id: no effect), or the whole system
    /// when no id is given.
    pub fn pause(&mut self, id: Option<String>)
        requires
            old(self).wf(),
        ensures
            final(self).wf(),
            final(self)@ == paused_after(old(self)@, crate::message::opt_text_view(id), true),
    {
        self.set_paused(id, true)
    }

    /// Unpauses the named actor (absent id: no effect), or the whole system
    /// when no id is given.
    pub fn unpause(&mut self, id: Option<String>)
        requires
            old(self).wf(),
        ensures
            final(self).wf(),
            final(self)@ == paused_after(old(self)@, crate::message::opt_text_view(id), false),
    {
        self.set_paused(id, false)
    }

    /// Sets the tick period; fails with `TickTooShort` below the minimum.
    pub fn set_tick(&mut self, ms: u64) -> (r: EosResult<()>)
        requires
            old(self).wf(),
        ensures
            final(self).wf(),
            ms >= MIN_TICK ==> r is Ok && final(self)@ == (SystemView { tick_ms: ms, ..old(self)@ }),
            ms < MIN_TICK ==> r == Err::<(), EosError>(EosError::TickTooShort(ms)) && final(self)@ == old(self)@,
    {
        if ms < MIN_TICK {
            return Err(EosError::TickTooShort(ms));
        }
        self.tick_ms = ms;
        Ok(())
    }

    /// Restores the default tick period.
    pub fn reset_tick(&mut self)
        requires
            old(self).wf(),
        ensures
            final(self).wf(),
            final(self)@ == (SystemView { tick_ms: DEFAULT_TICK, ..old(self)@ }),
    {
        self.tick_ms = DEFAULT_TICK;
    }

    /// Gives the actor `from` the id `to`, keeping its state and queues.
    /// Fails with `IdAlreadyExists` when `to` is taken; an absent `from` is
    /// tolerated.
    pub fn rename(&mut self, from: &str, to: String) -> (r: EosResult<()>)
        requires
            old(self).wf(),
        ensures
            final(self).wf(),
            r is Ok <==> !has_id(old(self)@.actors, to@),
            match r {
                Ok(_) => final(self)@ == (SystemView {
                    actors: renamed(old(self)@.actors, from@, to@),
                    ..old(self)@
                }),
                Err(EosError::IdAlreadyExists(id)) => id@ == to@ && final(self)@ == old(self)@,
                Err(_) => false,
            },
    {
        if let Some(_) = self.find(to.as_str()) {
            return Err(EosError::IdAlreadyExists(to));
        }
        if let Some(i) = self.find(from) {
            let ghost a0 = self.actors@;
            let ghost t = to@;
            self.actors[i].id = to;
            assert(actors_view(self.actors@) =~= actors_view(a0).update(
                i as int,
                ActorView { id: t, ..actors_view(a0)[i as int] },
            ));
        }
        Ok(())
    }

    /// The ids of the live actors, in table order.
    pub fn list(&self) -> (r: Vec<String>)
        ensures
            texts_view(r@) == ids_of(self@.actors),
    {
        let mut r: Vec<String> = Vec::new();
        let mut i: usize = 0;
        while i < self.actors.len()
            invariant
                i <= self@.actors.len(),
                texts_view(r@) == ids_of(self@.actors).take(i as int),
            decreases self.actors.len() - i,
        {
            let ghost r0 = r@;
            let id = self.actors[i].id.clone();
            r.push(id);
            assert(texts_view(r@) =~= texts_view(r0).push(id@));
            assert(ids_of(self@.actors).take(i + 1) =~= ids_of(self@.actors).take(i as int).push(
                self@.actors[i as int].id,
            ));
            i = i + 1;
        }
        assert(ids_of(self@.actors).take(i as int) =~= ids_of(self@.actors));
        r
    }
}

} // verus!
