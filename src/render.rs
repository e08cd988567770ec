//! The text of each file of the virtual tree.
use vstd::prelude::*;
use crate::actor::Actor;
use crate::json::{
    array_value, entries_view, json_array, json_object, json_opt_string, json_pretty, object_value,
    opt_string_value, pretty_json,
};
use crate::message::{Message, MessageView, Props, PropsView};
use crate::path::{FileKind, NodeView};
use crate::system::{index_of, System, SystemView};

verus! {

/// The JSON object a message is shown as.
pub open spec fn message_value(m: MessageView) -> serde_json::Value {
    json_object(
        seq![
            ("from"@, json_opt_string(m.from)),
            ("to"@, json_opt_string(Some(m.to))),
            ("payload"@, m.payload),
        ],
    )
}

/// The JSON array a mailbox is shown as.
pub open spec fn mailbox_value(ms: Seq<MessageView>) -> serde_json::Value {
    json_array(ms.map_values(|m: MessageView| message_value(m)))
}

/// The JSON object a spawn request is shown as.
pub open spec fn props_value(p: PropsView) -> serde_json::Value {
    json_object(seq![("id"@, json_opt_string(p.id)), ("script"@, json_opt_string(Some(p.script)))])
}

/// The JSON array the spawn queue is shown as.
pub open spec fn spawn_queue_value(ps: Seq<PropsView>) -> serde_json::Value {
    json_array(ps.map_values(|p: PropsView| props_value(p)))
}

pub open spec fn flag_text(b: bool) -> Seq<char> {
    if b {
        "true"@
    } else {
        "false"@
    }
}

/// The text of a file node of the system's tree (empty for directories and
/// for files of absent actors).
pub open spec fn file_text(s: SystemView, n: NodeView) -> Seq<char> {
    match n {
        NodeView::SpawnQueue => json_pretty(spawn_queue_value(s.spawn_queue)),
        NodeView::ActorFile(id, k) => {
            let a = s.actors[index_of(s.actors, id)];
            match k {
                FileKind::Mailbox => json_pretty(mailbox_value(a.mailbox)),
                FileKind::Script => a.script,
                FileKind::State => json_pretty(a.state),
                FileKind::Paused => flag_text(a.paused),
            }
        },
        _ => seq![],
    }
}

fn message_json(m: &Message) -> (r: serde_json::Value)
    ensures
        r == message_value(m@),
{
    let from = match &m.from {
        Some(f) => Some(f.clone()),
        None => None,
    };
    let entries: Vec<(String, serde_json::Value)> = vec![
        (String::from_str("from"), opt_string_value(from)),
        (String::from_str("to"), opt_string_value(Some(m.to.clone()))),
        (String::from_str("payload"), m.payload.clone()),
    ];
    assert(entries_view(entries@) =~= seq![
        ("from"@, json_opt_string(m@.from)),
        ("to"@, json_opt_string(Some(m@.to))),
        ("payload"@, m@.payload),
    ]);
    object_value(entries)
}

fn props_json(p: &Props) -> (r: serde_json::Value)
    ensures
        r == props_value(p@),
{
    let id = match &p.id {
        Some(f) => Some(f.clone()),
        None => None,
    };
    let entries: Vec<(String, serde_json::Value)> = vec![
        (String::from_str("id"), opt_string_value(id)),
        (String::from_str("script"), opt_string_value(Some(p.script.clone()))),
    ];
    assert(entries_view(entries@) =~= seq![
        ("id"@, json_opt_string(p@.id)),
        ("script"@, json_opt_string(Some(p@.script))),
    ]);
    object_value(entries)
}

/// The pretty JSON text of an actor's mailbox.
pub fn format_mailbox(actor: &Actor) -> (r: String)
    ensures
        r@ == json_pretty(mailbox_value(actor@.mailbox)),
{
    let mut items: Vec<serde_json::Value> = Vec::new();
    let n = actor.mailbox.len();
    let mut i: usize = 0;
    while i < n
        invariant
            n == actor.mailbox@.len(),
            i <= n,
            items@ =~= actor@.mailbox.take(i as int).map_values(|m: MessageView| message_value(m)),
        decreases n - i,
    {
        let v = message_json(&actor.mailbox[i]);
        items.push(v);
        i = i + 1;
    }
    assert(actor@.mailbox.take(i as int) =~= actor@.mailbox);
    pretty_json(&array_value(items))
}

/// The pretty JSON text of the pending spawn requests.
pub fn format_spawn_queue(sys: &System) -> (r: String)
    ensures
        r@ == json_pretty(spawn_queue_value(sys@.spawn_queue)),
{
    let mut items: Vec<serde_json::Value> = Vec::new();
    let n = sys.spawn_queue.len();
    let mut i: usize = 0;
    while i < n
        invariant
            n == sys.spawn_queue@.len(),
            i <= n,
            items@ =~= sys@.spawn_queue.take(i as int).map_values(|p: PropsView| props_value(p)),
        decreases n - i,
    {
        let v = props_json(&sys.spawn_queue[i]);
        items.push(v);
        i = i + 1;
    }
    assert(sys@.spawn_queue.take(i as int) =~= sys@.spawn_queue);
    pretty_json(&array_value(items))
}

/// The text of file `kind` of an actor.
pub fn actor_file_text(actor: &Actor, kind: FileKind) -> (r: String)
    ensures
        r@ == match kind {
            FileKind::Mailbox => json_pretty(mailbox_value(actor@.mailbox)),
            FileKind::Script => actor@.script,
            FileKind::State => json_pretty(actor@.state),
            FileKind::Paused => flag_text(actor@.paused),
        },
{
    match kind {
        FileKind::Mailbox => format_mailbox(actor),
        FileKind::Script => actor.script.clone(),
        FileKind::State => pretty_json(&actor.state),
        FileKind::Paused => if actor.paused {
            String::from_str("true")
        } else {
            String::from_str("false")
        },
    }
}

} // verus!
