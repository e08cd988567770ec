//! Directory listings of the virtual tree: entries, their text encoding for
//! plain reads, and the paging of `readdir`.
use vstd::prelude::*;
use vstd::string::*;
use vstd::utf8::*;
use crate::fid::{read_slice, window};
use crate::order::{lex_sorted, sort_texts, texts_of};
use crate::overlay::{file_bytes, live_node, lookup, node_text};
use crate::path::{FileKind, Node, NodeView};
use crate::system::{ids_of, System, SystemView};
use crate::text::join_text;

verus! {

/// One directory entry: its name, whether it is a directory, and its size.
#[derive(Debug)]
pub struct DirEntryInfo {
    pub name: String,
    pub is_dir: bool,
    pub size: u64,
}

pub ghost struct EntryView {
    pub name: Seq<char>,
    pub is_dir: bool,
    pub size: u64,
}

impl View for DirEntryInfo {
    type V = EntryView;

    open spec fn view(&self) -> EntryView {
        EntryView { name: self.name@, is_dir: self.is_dir, size: self.size }
    }
}

pub open spec fn entries_view(s: Seq<DirEntryInfo>) -> Seq<EntryView> {
    s.map_values(|e: DirEntryInfo| e@)
}

pub open spec fn file_entry(s: SystemView, n: NodeView, name: Seq<char>) -> EntryView {
    EntryView { name, is_dir: false, size: file_bytes(s, n).len() as u64 }
}

/// The entries of an actor's directory, in their fixed order.
pub open spec fn actor_entries(s: SystemView, id: Seq<char>) -> Seq<EntryView> {
    seq![
        file_entry(s, NodeView::ActorFile(id, FileKind::Mailbox), "mailbox"@),
        file_entry(s, NodeView::ActorFile(id, FileKind::Script), "script"@),
        file_entry(s, NodeView::ActorFile(id, FileKind::State), "state"@),
        file_entry(s, NodeView::ActorFile(id, FileKind::Paused), "paused"@),
    ]
}

/// The entries of the root directory, in their fixed order.
pub open spec fn root_entries(s: SystemView) -> Seq<EntryView> {
    seq![
        EntryView { name: "actors"@, is_dir: true, size: 0 },
        file_entry(s, NodeView::SpawnQueue, "spawn_queue"@),
    ]
}

fn file_entry_exec(sys: &System, node: Node, name: &str) -> (r: DirEntryInfo)
    requires
        sys.wf(),
        crate::path::node_exists(sys@, node@),
        !crate::path::node_is_dir(node@),
    ensures
        r@ == file_entry(sys@, node@, name@),
{
    let t = node_text(sys, &node);
    let bytes = t.as_str().as_bytes_vec();
    DirEntryInfo { name: String::from_str(name), is_dir: false, size: bytes.len() as u64 }
}

/// The entries of the directory at `path`: the root's and an actor
/// directory's in fixed order, `/actors` one per actor sorted by id; none
/// for a file or a path that does not exist.
pub fn read_directory(sys: &System, path: &str) -> (r: Vec<DirEntryInfo>)
    requires
        sys.wf(),
    ensures
        match live_node(sys@, path@) {
            Some(NodeView::Root) => entries_view(r@) == root_entries(sys@),
            Some(NodeView::ActorDir(id)) => entries_view(r@) == actor_entries(sys@, id),
            Some(NodeView::Actors) => {
                &&& r@.len() == sys@.actors.len()
                &&& forall|i: int| 0 <= i < r@.len() ==> (#[trigger] r@[i]).is_dir && r@[i].size == 0
                &&& lex_sorted(entries_view(r@).map_values(|e: EntryView| e.name))
                &&& forall|x: Seq<char>|
                    entries_view(r@).map_values(|e: EntryView| e.name).contains(x)
                        <==> ids_of(sys@.actors).contains(x)
            },
            _ => r@.len() == 0,
        },
{
    match lookup(sys, path) {
        Some(Node::Root) => {
            let e2 = file_entry_exec(sys, Node::SpawnQueue, "spawn_queue");
            let r = vec![DirEntryInfo { name: String::from_str("actors"), is_dir: true, size: 0 }, e2];
            assert(entries_view(r@) =~= root_entries(sys@));
            r
        },
        Some(Node::Actors) => {
            let listed = sys.list();
            assert(listed@.len() == sys@.actors.len()) by {
                assert(crate::system::texts_view(listed@).len() == ids_of(sys@.actors).len());
            }
            assert(texts_of(listed@) =~= ids_of(sys@.actors)) by {
                assert(texts_of(listed@) =~= crate::system::texts_view(listed@));
            }
            let ids = sort_texts(listed);
            let mut r: Vec<DirEntryInfo> = Vec::new();
            let mut i: usize = 0;
            while i < ids.len()
                invariant
                    i <= ids@.len(),
                    r@.len() == i,
                    forall|j: int| 0 <= j < i ==> (#[trigger] r@[j]).is_dir && r@[j].size == 0
                        && r@[j].name@ == ids@[j]@,
                decreases ids.len() - i,
            {
                r.push(DirEntryInfo { name: ids[i].clone(), is_dir: true, size: 0 });
                i = i + 1;
            }
            assert(entries_view(r@).map_values(|e: EntryView| e.name) =~= texts_of(ids@));
            r
        },
        Some(Node::ActorDir(id)) => {
            let e1 = file_entry_exec(sys, Node::ActorFile(id.clone(), FileKind::Mailbox), "mailbox");
            let e2 = file_entry_exec(sys, Node::ActorFile(id.clone(), FileKind::Script), "script");
            let e3 = file_entry_exec(sys, Node::ActorFile(id.clone(), FileKind::State), "state");
            let e4 = file_entry_exec(sys, Node::ActorFile(id.clone(), FileKind::Paused), "paused");
            let r = vec![e1, e2, e3, e4];
            assert(entries_view(r@) =~= actor_entries(sys@, id@));
            r
        },
        _ => Vec::new(),
    }
}

pub open spec fn digit_char(d: int) -> char {
    if d == 0 {
        '0'
    } else if d == 1 {
        '1'
    } else if d == 2 {
        '2'
    } else if d == 3 {
        '3'
    } else if d == 4 {
        '4'
    } else if d == 5 {
        '5'
    } else if d == 6 {
        '6'
    } else if d == 7 {
        '7'
    } else if d == 8 {
        '8'
    } else {
        '9'
    }
}

/// The decimal digits of a number, without leading zeros.
pub open spec fn decimal(n: nat) -> Seq<char>
    decreases n,
{
    if n < 10 {
        seq![digit_char(n as int)]
    } else {
        decimal(n / 10).push(digit_char((n % 10) as int))
    }
}

fn digit_text(d: u64) -> (r: &'static str)
    requires
        d < 10,
    ensures
        r@ == seq![digit_char(d as int)],
{
    proof {
        reveal_strlit("0");
        reveal_strlit("1");
        reveal_strlit("2");
        reveal_strlit("3");
        reveal_strlit("4");
        reveal_strlit("5");
        reveal_strlit("6");
        reveal_strlit("7");
        reveal_strlit("8");
        reveal_strlit("9");
    }
    let r = if d == 0 {
        "0"
    } else if d == 1 {
        "1"
    } else if d == 2 {
        "2"
    } else if d == 3 {
        "3"
    } else if d == 4 {
        "4"
    } else if d == 5 {
        "5"
    } else if d == 6 {
        "6"
    } else if d == 7 {
        "7"
    } else if d == 8 {
        "8"
    } else {
        "9"
    };
    assert(r@ =~= seq![digit_char(d as int)]);
    r
}

/// The decimal text of a number.
pub fn decimal_text(n: u64) -> (r: String)
    ensures
        r@ == decimal(n as nat),
    decreases n,
{
    if n < 10 {
        String::from_str(digit_text(n))
    } else {
        let mut s = decimal_text(n / 10);
        s.append(digit_text(n % 10));
        s
    }
}

/// The line a directory entry is shown as: name, `dir` or `file`, and size,
/// separated by tabs.
pub open spec fn entry_line(e: EntryView) -> Seq<char> {
    e.name + "\t"@ + (if e.is_dir {
        "dir"@
    } else {
        "file"@
    }) + "\t"@ + decimal(e.size as nat) + "\n"@
}

pub open spec fn listing_text(es: Seq<EntryView>) -> Seq<char>
    decreases es.len(),
{
    if es.len() == 0 {
        seq![]
    } else {
        listing_text(es.drop_last()) + entry_line(es.last())
    }
}

/// The bytes `[offset, offset + count)` of the text of a listing.
pub fn encode_directory_entries(entries: &Vec<DirEntryInfo>, offset: u64, count: u32) -> (r: Vec<u8>)
    ensures
        r@ == window(encode_utf8(listing_text(entries_view(entries@))), offset as int, count as int),
{
    let mut text = String::new();
    let mut i: usize = 0;
    while i < entries.len()
        invariant
            i <= entries@.len(),
            text@ == listing_text(entries_view(entries@).take(i as int)),
        decreases entries.len() - i,
    {
        let e = &entries[i];
        let kind = if e.is_dir {
            "dir"
        } else {
            "file"
        };
        let line = join_text(e.name.as_str(), "\t");
        let line = join_text(line.as_str(), kind);
        let line = join_text(line.as_str(), "\t");
        let digits = decimal_text(e.size);
        let line = join_text(line.as_str(), digits.as_str());
        let line = join_text(line.as_str(), "\n");
        text.append(line.as_str());
        proof {
            let es = entries_view(entries@);
            assert(es.take(i + 1).drop_last() =~= es.take(i as int));
            assert(line@ == entry_line(es[i as int]));
        }
        i = i + 1;
    }
    assert(entries_view(entries@).take(i as int) =~= entries_view(entries@));
    let bytes = text.as_str().as_bytes_vec();
    read_slice(&bytes, offset, count)
}

/// The size of a directory entry in a `readdir` reply: the fixed part (a
/// 13-byte qid, an 8-byte offset, a type byte and a 2-byte name length)
/// and the name's bytes.
pub open spec fn entry_size(name: Seq<char>) -> int {
    24 + encode_utf8(name).len() as int
}

/// How many leading entries fit in `count` bytes.
pub open spec fn take_fitting(sizes: Seq<int>, count: int) -> int
    decreases sizes.len(),
{
    if sizes.len() == 0 {
        0
    } else if sizes[0] <= count {
        1 + take_fitting(sizes.drop_first(), count - sizes[0])
    } else {
        0
    }
}

pub open spec fn entry_sizes(es: Seq<EntryView>) -> Seq<int> {
    es.map_values(|e: EntryView| entry_size(e.name))
}

/// The range of entries a `readdir` at entry index `offset` with a limit of
/// `count` bytes returns: from `offset`, as many as fit, but at least one
/// when any is left and `count` is not zero.
pub open spec fn readdir_range(es: Seq<EntryView>, offset: int, count: int) -> (int, int) {
    let start = if offset < es.len() {
        offset
    } else {
        es.len() as int
    };
    let k = take_fitting(entry_sizes(es).subrange(start, es.len() as int), count);
    let n = if k == 0 && count > 0 && start < es.len() {
        1
    } else {
        k
    };
    (start, start + n)
}

/// The range of entries that a `readdir` returns.
pub fn select_entries(entries: &Vec<DirEntryInfo>, offset: u64, count: u32) -> (r: (usize, usize))
    ensures
        r.0 as int == readdir_range(entries_view(entries@), offset as int, count as int).0,
        r.1 as int == readdir_range(entries_view(entries@), offset as int, count as int).1,
{
    let ghost es = entries_view(entries@);
    let len = entries.len();
    let start: usize = if offset < len as u64 {
        offset as usize
    } else {
        len
    };
    let ghost sizes = entry_sizes(es);
    assert(es.len() == entries@.len());
    assert(sizes.len() == es.len());
    assert(forall|j: int| 0 <= j < len ==> #[trigger] es[j] == entries@[j]@);
    assert(forall|j: int| 0 <= j < len ==> #[trigger] sizes[j] == entry_size(es[j].name));
    let mut end: usize = start;
    let mut room: u64 = count as u64;
    loop
        invariant
            start <= end <= len,
            len == es.len(),
            len == entries@.len(),
            sizes.len() == len,
            sizes == entry_sizes(es),
            es == entries_view(entries@),
            room <= count,
            take_fitting(sizes.subrange(start as int, len as int), count as int) == (end - start)
                + take_fitting(sizes.subrange(end as int, len as int), room as int),
        ensures
            take_fitting(sizes.subrange(end as int, len as int), room as int) == 0,
        decreases len - end,
    {
        if end >= len {
            assert(sizes.subrange(end as int, len as int).len() == 0);
            assert(take_fitting(sizes.subrange(end as int, len as int), room as int) == 0);
            break;
        }
        let nb = entries[end].name.as_str().as_bytes().len() as u64;
        proof {
            assert(es[end as int].name == entries@[end as int].name@);
            assert(sizes[end as int] == 24 + nb);
            assert(sizes.subrange(end as int, len as int)[0] == sizes[end as int]);
            assert(sizes.subrange(end as int, len as int).drop_first() =~= sizes.subrange(end + 1, len as int));
        }
        if nb > room || 24 > room - nb {
            assert(take_fitting(sizes.subrange(end as int, len as int), room as int) == 0);
            break;
        }
        room = room - nb - 24;
        end = end + 1;
    }
    assert(take_fitting(sizes.subrange(start as int, len as int), count as int) == end - start);
    if end == start && count > 0 && start < len {
        end = start + 1;
    }
    (start, end)
}

} // verus!
