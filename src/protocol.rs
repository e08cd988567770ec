//! The control protocol: commands an operator submits and the responses
//! they get, and how the supervisor answers each command.
use vstd::prelude::*;
use crate::message::{opt_text_view, Message, Props};
use crate::system::{
    delivered, has_id, ids_of, paused_after, renamed, texts_view, tick_too_short_text,
    without_all, EosError, EosResult, System, SystemView, DEFAULT_TICK, MIN_TICK,
};

verus! {

/// The answer to a command.
#[derive(Debug)]
pub enum Response {
    Done,
    Failed { err: String },
    Spawned { id: String },
    Actors { actors: Vec<String> },
}

/// A command, as an operator submits it.
#[derive(Debug)]
pub enum Command {
    Spawn { props: Props },
    List,
    Send(Message),
    Pause { id: Option<String> },
    Unpause { id: Option<String> },
    Kill { ids: Vec<String> },
    Tick,
    SetTick { tick: u64 },
    ResetTick,
    Shutdown,
    Rename { from: String, to: String },
}

/// A command with the session its response is addressed to.
#[derive(Debug)]
pub struct Request {
    pub session_id: String,
    pub cmd: Command,
}

/// The command needs the script host (spawn, tick) or ends the process
/// (shutdown); the supervisor alone cannot answer it.
pub open spec fn needs_host(cmd: Command) -> bool {
    match cmd {
        Command::Spawn { .. } | Command::Tick | Command::Shutdown => true,
        _ => false,
    }
}

/// The response to a spawn attempt.
pub fn spawn_response(r: EosResult<String>) -> (resp: Response)
    ensures
        match r {
            Ok(id) => resp == Response::Spawned { id },
            Err(e) => (resp matches Response::Failed { err } && match e {
                EosError::IdAlreadyExists(x) => err@ == crate::system::id_exists_text(x@),
                EosError::TickTooShort(_) => err@ == tick_too_short_text(),
            }),
        },
{
    match r {
        Ok(id) => Response::Spawned { id },
        Err(e) => Response::Failed { err: e.message() },
    }
}

impl System {
    /// Answers a command that needs no script host: list, send, pause,
    /// unpause, kill, tick-rate changes and rename. Any other command is
    /// handed back untouched.
    pub fn control(&mut self, cmd: Command) -> (r: Result<Response, Command>)
        requires
            old(self).wf(),
        ensures
            final(self).wf(),
            needs_host(cmd) ==> r == Err::<Response, Command>(cmd) && final(self)@ == old(self)@,
            match cmd {
                Command::List => final(self)@ == old(self)@ && (r matches Ok(Response::Actors { actors })
                    && texts_view(actors@) == ids_of(old(self)@.actors)),
                Command::Send(m) => r == Ok::<Response, Command>(Response::Done) && final(self)@ == (
                SystemView { actors: delivered(old(self)@.actors, m@), ..old(self)@ }),
                Command::Pause { id } => r == Ok::<Response, Command>(Response::Done) && final(self)@
                    == paused_after(old(self)@, opt_text_view(id), true),
                Command::Unpause { id } => r == Ok::<Response, Command>(Response::Done) && final(self)@
                    == paused_after(old(self)@, opt_text_view(id), false),
                Command::Kill { ids } => r == Ok::<Response, Command>(Response::Done) && final(self)@
                    == (SystemView { actors: without_all(old(self)@.actors, texts_view(ids@)), ..old(self)@ }),
                Command::SetTick { tick } => if tick >= MIN_TICK {
                    r == Ok::<Response, Command>(Response::Done) && final(self)@ == (SystemView {
                        tick_ms: tick,
                        ..old(self)@
                    })
                } else {
                    final(self)@ == old(self)@ && (r matches Ok(Response::Failed { err })
                        && err@ == tick_too_short_text())
                },
                Command::ResetTick => r == Ok::<Response, Command>(Response::Done) && final(self)@ == (
                SystemView { tick_ms: DEFAULT_TICK, ..old(self)@ }),
                Command::Rename { from, to } => if has_id(old(self)@.actors, to@) {
                    final(self)@ == old(self)@ && (r matches Ok(Response::Failed { err })
                        && err@ == crate::system::id_exists_text(to@))
                } else {
                    r == Ok::<Response, Command>(Response::Done) && final(self)@ == (SystemView {
                        actors: renamed(old(self)@.actors, from@, to@),
                        ..old(self)@
                    })
                },
                _ => true,
            },
    {
        match cmd {
            Command::List => Ok(Response::Actors { actors: self.list() }),
            Command::Send(m) => {
                self.send(m);
                Ok(Response::Done)
            },
            Command::Pause { id } => {
                self.pause(id);
                Ok(Response::Done)
            },
            Command::Unpause { id } => {
                self.unpause(id);
                Ok(Response::Done)
            },
            Command::Kill { ids } => {
                self.kill_actors(&ids);
                Ok(Response::Done)
            },
            Command::SetTick { tick } => match self.set_tick(tick) {
                Ok(()) => Ok(Response::Done),
                Err(e) => Ok(Response::Failed { err: e.message() }),
            },
            Command::ResetTick => {
                self.reset_tick();
                Ok(Response::Done)
            },
            Command::Rename { from, to } => match self.rename(from.as_str(), to) {
                Ok(()) => Ok(Response::Done),
                Err(e) => Ok(Response::Failed { err: e.message() }),
            },
            other => Err(other),
        }
    }
}

} // verus!
