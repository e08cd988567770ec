use eos::actor::{HandlerOutcome, HandlerResult, Outbound};
use eos::message::{Message, Props};
use eos::protocol::{spawn_response, Command, Response};
use eos::system::{EosError, System, DEFAULT_TICK};
use eos::tick::TickPlan;
use serde_json::Value;

fn json(text: &str) -> Value {
    serde_json::from_str(text).unwrap()
}

fn spawn(sys: &mut System, id: &str) -> String {
    let props = Props { id: Some(id.to_string()), script: String::from("pub fn handle(s, m) { s }") };
    sys.spawn_actor(props, json("{}")).unwrap()
}

fn msg(from: Option<&str>, to: &str, payload: Value) -> Message {
    Message { from: from.map(String::from), to: to.to_string(), payload }
}

fn idle() -> HandlerOutcome {
    HandlerOutcome { result: HandlerResult::Failed, sends: Vec::new() }
}

fn position(sys: &System, id: &str) -> usize {
    sys.actors.iter().position(|a| a.id == id).unwrap()
}

/// Runs one whole tick, answering each delivered message with `answer`.
fn run_tick(sys: &mut System, answer: &dyn Fn(&str, &Message) -> HandlerOutcome) -> Vec<(String, Value)> {
    let mut seen = Vec::new();
    let plan: TickPlan = match sys.begin_tick() {
        Some(p) => p,
        None => return seen,
    };
    let mut outcomes = Vec::new();
    for (i, slot) in plan.slots.iter().enumerate() {
        match &slot.delivered {
            Some(m) => {
                let id = sys.actors[i].id.clone();
                seen.push((id.clone(), m.payload.clone()));
                outcomes.push(answer(&id, m));
            }
            None => outcomes.push(idle()),
        }
    }
    sys.tick(plan, outcomes);
    seen
}

#[test]
fn spawn_echo_replies_to_sender() {
    let mut sys = System::new();
    spawn(&mut sys, "alice");
    spawn(&mut sys, "echo");
    sys.send(msg(Some("alice"), "echo", json("42")));
    let echo = |id: &str, m: &Message| {
        let state = json("{}");
        if id == "echo" {
            HandlerOutcome { result: HandlerResult::StateAndReply(state, m.payload.clone()), sends: vec![] }
        } else {
            HandlerOutcome { result: HandlerResult::State(state), sends: vec![] }
        }
    };
    run_tick(&mut sys, &echo);
    let alice = &sys.actors[position(&sys, "alice")];
    assert_eq!(alice.mailbox.len(), 1);
    let reply = &alice.mailbox[0];
    assert_eq!(reply.from.as_deref(), Some("echo"));
    assert_eq!(reply.to, "alice");
    assert_eq!(reply.payload, json("42"));
}

#[test]
fn echo_reply_to_absent_sender_is_dropped() {
    let mut sys = System::new();
    spawn(&mut sys, "echo");
    sys.send(msg(Some("alice"), "echo", json("42")));
    let echo = |_: &str, m: &Message| HandlerOutcome {
        result: HandlerResult::StateAndReply(json("{}"), m.payload.clone()),
        sends: vec![],
    };
    run_tick(&mut sys, &echo);
    run_tick(&mut sys, &echo);
    assert_eq!(sys.actors.len(), 1);
    assert!(sys.actors[0].mailbox.is_empty());
}

#[test]
fn counter_counts_three_messages() {
    let mut sys = System::new();
    let props = Props { id: Some("c".to_string()), script: String::new() };
    sys.spawn_actor(props, json("{\"n\": 0}")).unwrap();
    for k in 0..3 {
        sys.send(msg(None, "c", json(&k.to_string())));
    }
    for _ in 0..3 {
        let state = sys.actors[0].state.clone();
        let n = state["n"].as_i64().unwrap();
        let next = json(&format!("{{\"n\": {}}}", n + 1));
        run_tick(&mut sys, &move |_: &str, _: &Message| HandlerOutcome {
            result: HandlerResult::State(next.clone()),
            sends: vec![],
        });
    }
    let text = eos::overlay::read_file(&sys, "/actors/c/state");
    let v: Value = serde_json::from_slice(&text).unwrap();
    assert_eq!(v["n"], json("3"));
}

#[test]
fn pause_blocks_delivery() {
    let mut sys = System::new();
    spawn(&mut sys, "p");
    sys.pause(Some("p".to_string()));
    sys.send(msg(None, "p", json("1")));
    let mut invoked = 0;
    for _ in 0..5 {
        invoked += run_tick(&mut sys, &|_: &str, _: &Message| HandlerOutcome {
            result: HandlerResult::State(json("{\"changed\": true}")),
            sends: vec![],
        })
        .len();
    }
    assert_eq!(invoked, 0);
    let text = eos::overlay::read_file(&sys, "/actors/p/mailbox");
    let v: Value = serde_json::from_slice(&text).unwrap();
    assert_eq!(v.as_array().unwrap().len(), 1);
    assert_eq!(sys.actors[0].state, json("{}"));
}

#[test]
fn kill_drops_pending_and_later_sends() {
    let mut sys = System::new();
    spawn(&mut sys, "d");
    spawn(&mut sys, "e");
    for k in 0..10 {
        sys.send(msg(None, "d", json(&k.to_string())));
    }
    assert_eq!(sys.actors[0].mailbox.len(), 10);
    sys.kill_actors(&vec!["d".to_string()]);
    assert_eq!(sys.list(), vec!["e".to_string()]);
    sys.send(msg(None, "d", json("11")));
    assert_eq!(sys.list(), vec!["e".to_string()]);
    assert!(sys.actors[0].mailbox.is_empty());
}

#[test]
fn tick_rate_minimum() {
    let mut sys = System::new();
    match sys.control(Command::SetTick { tick: 50 }) {
        Ok(Response::Failed { err }) => assert_eq!(err, "tick must be at least 100 ms"),
        other => panic!("unexpected {:?}", other),
    }
    assert_eq!(sys.tick_ms, DEFAULT_TICK);
    assert!(matches!(sys.control(Command::SetTick { tick: 100 }), Ok(Response::Done)));
    assert_eq!(sys.tick_ms, 100);
    assert!(matches!(sys.control(Command::ResetTick), Ok(Response::Done)));
    assert_eq!(sys.tick_ms, 2000);
    assert!(matches!(sys.set_tick(99), Err(EosError::TickTooShort(99))));
}

#[test]
fn spawn_then_list_until_kill() {
    let mut sys = System::new();
    let r = sys.spawn_actor(Props { id: Some("a".into()), script: String::new() }, json("{}"));
    assert!(matches!(spawn_response(r), Response::Spawned { ref id } if id == "a"));
    spawn(&mut sys, "b");
    sys.send(msg(None, "a", json("1")));
    sys.pause(Some("a".into()));
    sys.unpause(Some("a".into()));
    run_tick(&mut sys, &|_: &str, _: &Message| idle());
    sys.kill_actor("b");
    assert_eq!(sys.list(), vec!["a".to_string()]);
    sys.kill_actor("a");
    assert!(sys.list().is_empty());
}

#[test]
fn send_then_tick_invokes_once_with_payload() {
    let mut sys = System::new();
    spawn(&mut sys, "x");
    spawn(&mut sys, "y");
    sys.send(msg(None, "x", json("{\"v\": 7}")));
    let seen = run_tick(&mut sys, &|_: &str, _: &Message| idle());
    assert_eq!(seen, vec![("x".to_string(), json("{\"v\": 7}"))]);
    let again = run_tick(&mut sys, &|_: &str, _: &Message| idle());
    assert!(again.is_empty());
}

#[test]
fn at_most_one_message_per_tick() {
    let mut sys = System::new();
    spawn(&mut sys, "q");
    for k in 0..4 {
        sys.send(msg(None, "q", json(&k.to_string())));
    }
    let seen = run_tick(&mut sys, &|_: &str, _: &Message| idle());
    assert_eq!(seen, vec![("q".to_string(), json("0"))]);
    assert_eq!(sys.actors[0].mailbox.len(), 3);
}

#[test]
fn pause_twice_equals_once() {
    let mut once = System::new();
    let mut twice = System::new();
    for s in [&mut once, &mut twice] {
        spawn(s, "a");
        spawn(s, "b");
    }
    once.pause(Some("a".into()));
    twice.pause(Some("a".into()));
    twice.pause(Some("a".into()));
    let flags = |s: &System| s.actors.iter().map(|a| a.paused).collect::<Vec<_>>();
    assert_eq!(flags(&once), flags(&twice));
    assert_eq!(flags(&once), vec![true, false]);
    once.pause(None);
    twice.pause(None);
    twice.pause(None);
    assert_eq!(once.paused, twice.paused);
    assert!(once.paused);
}

#[test]
fn pause_of_absent_id_is_no_op() {
    let mut sys = System::new();
    spawn(&mut sys, "a");
    sys.pause(Some("ghost".into()));
    assert!(!sys.paused);
    assert!(!sys.actors[0].paused);
}

#[test]
fn paused_system_does_not_tick() {
    let mut sys = System::new();
    spawn(&mut sys, "a");
    sys.send(msg(None, "a", json("1")));
    sys.pause(None);
    assert!(sys.begin_tick().is_none());
    assert!(sys.take_spawn_queue().is_empty());
    assert_eq!(sys.actors[0].mailbox.len(), 1);
    sys.unpause(None);
    assert!(sys.begin_tick().is_some());
}

#[test]
fn reply_routed_to_sender() {
    let mut sys = System::new();
    spawn(&mut sys, "A");
    spawn(&mut sys, "B");
    sys.send(msg(Some("A"), "B", json("\"ping\"")));
    run_tick(&mut sys, &|id: &str, _: &Message| {
        if id == "B" {
            HandlerOutcome {
                result: HandlerResult::StateAndReply(json("{\"seen\": 1}"), json("\"pong\"")),
                sends: vec![],
            }
        } else {
            idle()
        }
    });
    let b = &sys.actors[position(&sys, "B")];
    assert_eq!(b.state, json("{\"seen\": 1}"));
    let a = &sys.actors[position(&sys, "A")];
    assert_eq!(a.mailbox.len(), 1);
    assert_eq!(a.mailbox[0].from.as_deref(), Some("B"));
    assert_eq!(a.mailbox[0].payload, json("\"pong\""));
}

#[test]
fn handler_sends_are_forwarded_one_per_tick() {
    let mut sys = System::new();
    spawn(&mut sys, "s");
    spawn(&mut sys, "t");
    sys.send(msg(None, "s", json("0")));
    run_tick(&mut sys, &|id: &str, _: &Message| {
        if id == "s" {
            HandlerOutcome {
                result: HandlerResult::Unrecognized,
                sends: vec![
                    Outbound { to: "t".into(), payload: json("1") },
                    Outbound { to: "t".into(), payload: json("2") },
                ],
            }
        } else {
            idle()
        }
    });
    let s = &sys.actors[position(&sys, "s")];
    assert_eq!(s.send_queue.len(), 2);
    assert_eq!(s.state, json("{}"));
    assert_eq!(s.send_queue[0].from.as_deref(), Some("s"));
    run_tick(&mut sys, &|_: &str, _: &Message| idle());
    let t = &sys.actors[position(&sys, "t")];
    assert_eq!(t.mailbox.len(), 1);
    assert_eq!(t.mailbox[0].payload, json("1"));
    assert_eq!(sys.actors[position(&sys, "s")].send_queue.len(), 1);
}

#[test]
fn failed_handler_keeps_state_and_consumes_message() {
    let mut sys = System::new();
    spawn(&mut sys, "f");
    sys.send(msg(Some("f"), "f", json("1")));
    run_tick(&mut sys, &|_: &str, _: &Message| idle());
    assert_eq!(sys.actors[0].state, json("{}"));
    assert!(sys.actors[0].mailbox.is_empty());
}

#[test]
fn spawn_rejects_taken_id() {
    let mut sys = System::new();
    spawn(&mut sys, "a");
    let r = sys.spawn_actor(Props { id: Some("a".into()), script: String::new() }, json("{}"));
    match &r {
        Err(e @ EosError::IdAlreadyExists(id)) => {
            assert_eq!(id, "a");
            assert_eq!(e.message(), "Actor with ID 'a' already exists");
        }
        other => panic!("unexpected {:?}", other),
    }
    match spawn_response(r) {
        Response::Failed { err } => assert_eq!(err, "Actor with ID 'a' already exists"),
        other => panic!("unexpected {:?}", other),
    }
    assert_eq!(sys.actors.len(), 1);
}

#[test]
fn spawn_generates_url_safe_id() {
    let mut sys = System::new();
    let id = sys.spawn_actor(Props { id: None, script: String::new() }, json("{}")).unwrap();
    assert_eq!(id.chars().count(), 21);
    assert!(id.chars().all(|c| c.is_ascii_alphanumeric() || c == '_' || c == '-'));
    assert_eq!(sys.list(), vec![id]);
}

#[test]
fn rename_keeps_record_and_rejects_taken() {
    let mut sys = System::new();
    spawn(&mut sys, "a");
    spawn(&mut sys, "b");
    sys.send(msg(None, "a", json("5")));
    match sys.control(Command::Rename { from: "a".into(), to: "b".into() }) {
        Ok(Response::Failed { err }) => assert_eq!(err, "Actor with ID 'b' already exists"),
        other => panic!("unexpected {:?}", other),
    }
    assert!(matches!(sys.control(Command::Rename { from: "a".into(), to: "c".into() }), Ok(Response::Done)));
    assert_eq!(sys.list(), vec!["c".to_string(), "b".to_string()]);
    assert_eq!(sys.actors[0].mailbox.len(), 1);
}

#[test]
fn control_hands_back_host_commands() {
    let mut sys = System::new();
    assert!(matches!(sys.control(Command::Tick), Err(Command::Tick)));
    assert!(matches!(sys.control(Command::Shutdown), Err(Command::Shutdown)));
    match sys.control(Command::List) {
        Ok(Response::Actors { actors }) => assert!(actors.is_empty()),
        other => panic!("unexpected {:?}", other),
    }
}

#[test]
fn spawn_queue_is_drained_in_order() {
    let mut sys = System::new();
    sys.spawn_queue.push(Props { id: Some("one".into()), script: String::new() });
    sys.spawn_queue.push(Props { id: Some("two".into()), script: String::new() });
    let q = sys.take_spawn_queue();
    assert_eq!(q.iter().map(|p| p.id.clone().unwrap()).collect::<Vec<_>>(), vec!["one", "two"]);
    assert!(sys.spawn_queue.is_empty());
}

#[test]
fn initial_state_defaults_to_empty_object() {
    assert_eq!(eos::actor::initial_state(None), json("{}"));
    assert_eq!(eos::actor::initial_state(Some(json("{\"n\": 0}"))), json("{\"n\": 0}"));
}

#[test]
fn spawn_id_is_requested_or_generated() {
    assert_eq!(System::spawn_id(Some("me".to_string())), "me");
    let g = System::spawn_id(None);
    assert_eq!(g.chars().count(), 21);
    assert_ne!(g, System::spawn_id(None));
}
