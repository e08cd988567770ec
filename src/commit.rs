//! Per-handle write buffers and what a commit does to the system.
use vstd::prelude::*;
use vstd::string::*;
use vstd::utf8::*;
use crate::actor::ActorView;
use crate::json::{
    json_items, json_member, json_null_like, json_parse, json_text, parse_json, value_is_null,
    value_items, value_member, value_text,
};
use crate::message::{messages_view, Message, MessageView};
use crate::path::{node_at, parse_path, FileKind, Node, NodeView};
use crate::system::{actors_view, has_id, index_of, System, SystemView};
use crate::text::same_text;

verus! {

/// The errors of filesystem requests, each standing for a POSIX error number.
#[derive(Clone, Copy, Debug, PartialEq, Eq, Structural)]
pub enum FsError {
    /// `ENOENT`: the path or the actor it names does not exist.
    NotFound,
    /// `EINVAL`: the committed bytes do not parse for the target file.
    Invalid,
    /// `EROFS`: the path cannot be written.
    ReadOnly,
    /// `EISDIR`: the path is a directory.
    IsDir,
    /// `ENOTDIR`: a directory operation on a file.
    NotDir,
}

/// Whether a character has the Unicode `White_Space` property, the set
/// that `char::is_whitespace` tests.
pub open spec fn white_space(c: char) -> bool {
    ('\u{9}' <= c && c <= '\u{d}') || c == ' ' || c == '\u{85}' || c == '\u{a0}' || c == '\u{1680}'
        || ('\u{2000}' <= c && c <= '\u{200a}') || c == '\u{2028}' || c == '\u{2029}' || c
        == '\u{202f}' || c == '\u{205f}' || c == '\u{3000}'
}

/// Whether a character is white space.
pub fn is_space(c: char) -> (r: bool)
    ensures
        r == white_space(c),
{
    ('\u{9}' <= c && c <= '\u{d}') || c == ' ' || c == '\u{85}' || c == '\u{a0}' || c == '\u{1680}'
        || ('\u{2000}' <= c && c <= '\u{200a}') || c == '\u{2028}' || c == '\u{2029}' || c
        == '\u{202f}' || c == '\u{205f}' || c == '\u{3000}'
}

/// Relies on `std::str::from_utf8`: `Ok` exactly for valid UTF-8, holding
/// the decoded characters.
#[verifier::external_body]
fn utf8_text(data: &[u8]) -> (r: Option<String>)
    ensures
        r is Some <==> valid_utf8(data@),
        r is Some ==> r->0@ == decode_utf8(data@),
{
    std::str::from_utf8(data).ok().map(String::from)
}

pub open spec fn trim_start(s: Seq<char>) -> Seq<char>
    decreases s.len(),
{
    if s.len() > 0 && white_space(s[0]) {
        trim_start(s.drop_first())
    } else {
        s
    }
}

pub open spec fn trim_end(s: Seq<char>) -> Seq<char>
    decreases s.len(),
{
    if s.len() > 0 && white_space(s.last()) {
        trim_end(s.drop_last())
    } else {
        s
    }
}

/// A text without its leading and trailing white space.
pub open spec fn trimmed(s: Seq<char>) -> Seq<char> {
    trim_end(trim_start(s))
}

/// The flag a text spells once trimmed: `true` or `false`.
pub open spec fn flag_of(t: Seq<char>) -> Option<bool> {
    if trimmed(t) == "true"@ {
        Some(true)
    } else if trimmed(t) == "false"@ {
        Some(false)
    } else {
        None
    }
}

fn trim(s: &str) -> (r: &str)
    ensures
        r@ == trimmed(s@),
{
    let n = s.unicode_len();
    let mut lo: usize = 0;
    assert(s@.subrange(0, n as int) =~= s@);
    while lo < n && is_space(s.get_char(lo))
        invariant
            n == s@.len(),
            lo <= n,
            trim_start(s@) == trim_start(s@.subrange(lo as int, n as int)),
        decreases n - lo,
    {
        assert(s@.subrange(lo as int, n as int).drop_first() =~= s@.subrange(lo + 1, n as int));
        lo = lo + 1;
    }
    let u = s.substring_char(lo, n);
    assert(trim_start(s@) == u@) by {
        if lo < n {
            assert(u@[0] == s@[lo as int]);
        } else {
            assert(u@.len() == 0);
        }
    }
    let mut hi: usize = n - lo;
    assert(u@.subrange(0, hi as int) =~= u@);
    while hi > 0 && is_space(u.get_char(hi - 1))
        invariant
            hi <= u@.len(),
            trim_end(u@) == trim_end(u@.subrange(0, hi as int)),
        decreases hi,
    {
        assert(u@.subrange(0, hi as int).drop_last() =~= u@.subrange(0, hi - 1));
        hi = hi - 1;
    }
    let r = u.substring_char(0, hi);
    assert(trim_end(u@) == r@) by {
        if hi > 0 {
            assert(r@.last() == u@[hi - 1]);
        }
    }
    r
}

/// What a `from` member decodes to: absent or `null` is no sender, a string
/// is a sender; anything else does not decode (outer `None`).
pub open spec fn decode_from(v: serde_json::Value) -> Option<Option<Seq<char>>> {
    match json_member(v, "from"@) {
        None => Some(None),
        Some(x) => if json_null_like(x) {
            Some(None)
        } else {
            match json_text(x) {
                Some(t) => Some(Some(t)),
                None => None,
            }
        },
    }
}

/// The message a JSON object decodes to: `from` as above, `to` a string,
/// and `payload` any value.
pub open spec fn decode_message(v: serde_json::Value) -> Option<MessageView> {
    match (decode_from(v), json_member(v, "to"@), json_member(v, "payload"@)) {
        (Some(f), Some(t), Some(p)) => match json_text(t) {
            Some(ts) => Some(MessageView { from: f, to: ts, payload: p }),
            None => None,
        },
        _ => None,
    }
}

pub open spec fn decode_messages(items: Seq<serde_json::Value>) -> Option<Seq<MessageView>>
    decreases items.len(),
{
    if items.len() == 0 {
        Some(seq![])
    } else {
        match (decode_messages(items.drop_last()), decode_message(items.last())) {
            (Some(ms), Some(m)) => Some(ms.push(m)),
            _ => None,
        }
    }
}

/// The mailbox a JSON value decodes to: an array of messages.
pub open spec fn decode_mailbox(v: serde_json::Value) -> Option<Seq<MessageView>> {
    match json_items(v) {
        Some(items) => decode_messages(items),
        None => None,
    }
}

/// The mailbox a text holds, when it is a JSON array of messages.
pub open spec fn mailbox_of_text(t: Seq<char>) -> Option<Seq<MessageView>> {
    match json_parse(t) {
        Some(v) => decode_mailbox(v),
        None => None,
    }
}

fn decode_message_exec(v: &serde_json::Value) -> (r: Option<Message>)
    ensures
        match r {
            Some(m) => decode_message(*v) == Some(m@),
            None => decode_message(*v) is None,
        },
{
    let from_member = value_member(v, "from");
    let from: Option<String> = match &from_member {
        None => None,
        Some(x) => {
            if value_is_null(x) {
                None
            } else {
                match value_text(x) {
                    Some(t) => Some(t),
                    None => {
                        return None;
                    },
                }
            }
        },
    };
    let to = match value_member(v, "to") {
        Some(t) => match value_text(&t) {
            Some(ts) => ts,
            None => {
                return None;
            },
        },
        None => {
            return None;
        },
    };
    let payload = match value_member(v, "payload") {
        Some(p) => p,
        None => {
            return None;
        },
    };
    Some(Message { from, to, payload })
}

fn decode_mailbox_exec(v: &serde_json::Value) -> (r: Option<Vec<Message>>)
    ensures
        match r {
            Some(ms) => decode_mailbox(*v) == Some(messages_view(ms@)),
            None => decode_mailbox(*v) is None,
        },
{
    let items = match value_items(v) {
        Some(items) => items,
        None => {
            return None;
        },
    };
    let mut out: Vec<Message> = Vec::new();
    let mut i: usize = 0;
    while i < items.len()
        invariant
            i <= items@.len(),
            json_items(*v) == Some(items@),
            decode_messages(items@.take(i as int)) == Some(messages_view(out@)),
        decreases items.len() - i,
    {
        let m = decode_message_exec(&items[i]);
        assert(items@.take(i + 1).drop_last() =~= items@.take(i as int));
        match m {
            Some(m) => {
                let ghost o = out@;
                out.push(m);
                assert(messages_view(out@) =~= messages_view(o).push(m@));
            },
            None => {
                proof {
                    assert(items@.take(i + 1).last() == items@[i as int]);
                    assert(decode_messages(items@.take(i + 1)) is None);
                    lemma_decode_messages_prefix(items@, i as int + 1);
                    assert(json_items(*v) == Some(items@));
                    assert(decode_messages(items@) is None);
                }
                return None;
            },
        }
        i = i + 1;
    }
    assert(items@.take(i as int) =~= items@);
    Some(out)
}

proof fn lemma_decode_messages_prefix(items: Seq<serde_json::Value>, k: int)
    requires
        0 <= k <= items.len(),
        decode_messages(items.take(k)) is None,
    ensures
        decode_messages(items) is None,
    decreases items.len() - k,
{
    if k < items.len() {
        assert(items.take(k + 1).drop_last() =~= items.take(k));
        lemma_decode_messages_prefix(items, k + 1);
    } else {
        assert(items.take(k) =~= items);
    }
}

/// An actor after its file `k` is committed with text `t` that parses for it.
pub open spec fn actor_after_write(a: ActorView, k: FileKind, t: Seq<char>) -> ActorView {
    match k {
        FileKind::State => ActorView { state: json_parse(t)->0, ..a },
        FileKind::Mailbox => ActorView { mailbox: mailbox_of_text(t)->0, ..a },
        FileKind::Script => ActorView { script: t, ..a },
        FileKind::Paused => ActorView { paused: flag_of(t)->0, ..a },
    }
}

/// The text parses for file `k`.
pub open spec fn parses_for(k: FileKind, t: Seq<char>) -> bool {
    match k {
        FileKind::State => json_parse(t) is Some,
        FileKind::Mailbox => mailbox_of_text(t) is Some,
        FileKind::Script => true,
        FileKind::Paused => flag_of(t) is Some,
    }
}

/// The outcome of committing `data` to the file at `p`.
pub open spec fn commit_result(s: SystemView, p: Seq<char>, data: Seq<u8>) -> Result<(), FsError> {
    match node_at(p) {
        None => Err(FsError::ReadOnly),
        Some(NodeView::SpawnQueue) => Err(FsError::ReadOnly),
        Some(NodeView::ActorFile(id, k)) => if !has_id(s.actors, id) {
            Err(FsError::NotFound)
        } else if !valid_utf8(data) || !parses_for(k, decode_utf8(data)) {
            Err(FsError::Invalid)
        } else {
            Ok(())
        },
        Some(_) => Err(FsError::IsDir),
    }
}

/// The system after a successful commit of `data` to the file at `p`.
pub open spec fn committed(s: SystemView, p: Seq<char>, data: Seq<u8>) -> SystemView {
    match node_at(p) {
        Some(NodeView::ActorFile(id, k)) => {
            let i = index_of(s.actors, id);
            SystemView {
                actors: s.actors.update(i, actor_after_write(s.actors[i], k, decode_utf8(data))),
                ..s
            }
        },
        _ => s,
    }
}

/// Commits `data` to the file at `path`: parse first, then assign, so that
/// a rejected commit leaves the system unchanged.
pub fn write_file(sys: &mut System, path: &str, data: &[u8]) -> (r: Result<(), FsError>)
    requires
        old(sys).wf(),
    ensures
        final(sys).wf(),
        r == commit_result(old(sys)@, path@, data@),
        r is Ok ==> final(sys)@ == committed(old(sys)@, path@, data@),
        r is Err ==> final(sys)@ == old(sys)@,
{
    let node = parse_path(path);
    let (id, kind) = match node {
        None => {
            return Err(FsError::ReadOnly);
        },
        Some(Node::SpawnQueue) => {
            return Err(FsError::ReadOnly);
        },
        Some(Node::ActorFile(id, kind)) => (id, kind),
        Some(_) => {
            return Err(FsError::IsDir);
        },
    };
    let i = match sys.find(id.as_str()) {
        Some(i) => i,
        None => {
            return Err(FsError::NotFound);
        },
    };
    let text = match utf8_text(data) {
        Some(t) => t,
        None => {
            return Err(FsError::Invalid);
        },
    };
    let ghost a0 = sys.actors@;
    let ghost av = sys@.actors[i as int];
    assert(av == sys.actors@[i as int]@);
    match kind {
        FileKind::State => {
            match parse_json(text.as_str()) {
                Some(v) => {
                    sys.actors[i].state = v;
                },
                None => {
                    return Err(FsError::Invalid);
                },
            }
        },
        FileKind::Mailbox => {
            let v = match parse_json(text.as_str()) {
                Some(v) => v,
                None => {
                    return Err(FsError::Invalid);
                },
            };
            match decode_mailbox_exec(&v) {
                Some(ms) => {
                    let mut q: std::collections::VecDeque<Message> = std::collections::VecDeque::new();
                    let mut ms = ms;
                    let ghost all = ms@;
                    let mut j: usize = 0;
                    let total = ms.len();
                    while ms.len() > 0
                        invariant
                            total == all.len(),
                            j <= total,
                            ms@ == all.subrange(j as int, total as int),
                            ms@.len() == total - j,
                            messages_view(q@) == messages_view(all.take(j as int)),
                        decreases ms.len(),
                    {
                        let m = ms.remove(0);
                        let ghost q0 = q@;
                        q.push_back(m);
                        assert(all.take(j + 1) =~= all.take(j as int).push(m));
                        assert(messages_view(q@) =~= messages_view(q0).push(m@));
                        assert(messages_view(all.take(j + 1)) =~= messages_view(all.take(j as int)).push(m@));
                        j = j + 1;
                    }
                    assert(all.take(j as int) =~= all);
                    sys.actors[i].mailbox = q;
                },
                None => {
                    return Err(FsError::Invalid);
                },
            }
        },
        FileKind::Script => {
            sys.actors[i].script = text;
        },
        FileKind::Paused => {
            let t = trim(text.as_str());
            proof {
                reveal_strlit("true");
                reveal_strlit("false");
            }
            if same_text(t, "true") {
                sys.actors[i].paused = true;
            } else if same_text(t, "false") {
                sys.actors[i].paused = false;
            } else {
                return Err(FsError::Invalid);
            }
        },
    }
    proof {
        let s1 = sys@.actors;
        assert(s1 =~= actors_view(a0).update(i as int, actor_after_write(av, kind, decode_utf8(data@))));
        assert forall|x: int, y: int|
            0 <= x < s1.len() && 0 <= y < s1.len() && x != y implies s1[x].id != s1[y].id by {
            assert(s1[x].id == actors_view(a0)[x].id);
            assert(s1[y].id == actors_view(a0)[y].id);
        }
    }
    Ok(())
}

} // verus!
