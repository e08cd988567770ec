//! The virtual tree that projects the system as files, and how a path text
//! names a node of it.
use vstd::prelude::*;
use vstd::string::*;
use crate::system::{has_id, SystemView};
use crate::text::same_text;

verus! {

/// The files of an actor's directory.
#[derive(Clone, Copy, Debug, PartialEq, Eq, Structural)]
pub enum FileKind {
    Mailbox,
    Script,
    State,
    Paused,
}

/// A node of the tree.
#[derive(Debug)]
pub enum Node {
    /// `/`
    Root,
    /// `/actors`
    Actors,
    /// `/spawn_queue`
    SpawnQueue,
    /// `/actors/{id}`
    ActorDir(String),
    /// `/actors/{id}/{mailbox,script,state,paused}`
    ActorFile(String, FileKind),
}

pub ghost enum NodeView {
    Root,
    Actors,
    SpawnQueue,
    ActorDir(Seq<char>),
    ActorFile(Seq<char>, FileKind),
}

impl View for Node {
    type V = NodeView;

    open spec fn view(&self) -> NodeView {
        match self {
            Node::Root => NodeView::Root,
            Node::Actors => NodeView::Actors,
            Node::SpawnQueue => NodeView::SpawnQueue,
            Node::ActorDir(id) => NodeView::ActorDir(id@),
            Node::ActorFile(id, k) => NodeView::ActorFile(id@, *k),
        }
    }
}

pub open spec fn kind_name(k: FileKind) -> Seq<char> {
    match k {
        FileKind::Mailbox => "mailbox"@,
        FileKind::Script => "script"@,
        FileKind::State => "state"@,
        FileKind::Paused => "paused"@,
    }
}

pub open spec fn no_slash(s: Seq<char>) -> bool {
    forall|i: int| 0 <= i < s.len() ==> s[i] != '/'
}

/// An actor id that can stand as one path component.
pub open spec fn valid_component(id: Seq<char>) -> bool {
    id.len() > 0 && no_slash(id)
}

/// The path text `p` names node `n`. The empty path names the root.
pub open spec fn names(p: Seq<char>, n: NodeView) -> bool {
    match n {
        NodeView::Root => p == "/"@ || p.len() == 0,
        NodeView::Actors => p == "/actors"@,
        NodeView::SpawnQueue => p == "/spawn_queue"@,
        NodeView::ActorDir(id) => valid_component(id) && p == "/actors/"@ + id,
        NodeView::ActorFile(id, k) => valid_component(id) && p == "/actors/"@ + id + "/"@ + kind_name(
            k,
        ),
    }
}

/// The node exists in the system's current tree.
pub open spec fn node_exists(s: SystemView, n: NodeView) -> bool {
    match n {
        NodeView::ActorDir(id) => has_id(s.actors, id),
        NodeView::ActorFile(id, _) => has_id(s.actors, id),
        _ => true,
    }
}

/// The node is a directory.
pub open spec fn node_is_dir(n: NodeView) -> bool {
    match n {
        NodeView::Root | NodeView::Actors | NodeView::ActorDir(_) => true,
        _ => false,
    }
}

fn kind_of(name: &str) -> (r: Option<FileKind>)
    ensures
        match r {
            Some(k) => name@ == kind_name(k),
            None => forall|k: FileKind| name@ != kind_name(k),
        },
{
    if same_text(name, "mailbox") {
        Some(FileKind::Mailbox)
    } else if same_text(name, "script") {
        Some(FileKind::Script)
    } else if same_text(name, "state") {
        Some(FileKind::State)
    } else if same_text(name, "paused") {
        Some(FileKind::Paused)
    } else {
        None
    }
}

/// The position of the first `/` of `s`, or its length when it has none.
fn first_slash(s: &str) -> (r: usize)
    ensures
        r <= s@.len(),
        no_slash(s@.subrange(0, r as int)),
        r < s@.len() ==> s@[r as int] == '/',
{
    let n = s.unicode_len();
    let mut i: usize = 0;
    while i < n
        invariant
            n == s@.len(),
            i <= n,
            no_slash(s@.subrange(0, i as int)),
        decreases n - i,
    {
        if s.get_char(i) == '/' {
            return i;
        }
        assert(s@.subrange(0, i + 1) =~= s@.subrange(0, i as int).push(s@[i as int]));
        i = i + 1;
    }
    i
}

/// The part of an actor path after `/actors/` names node `n`.
pub open spec fn names_rest(r: Seq<char>, n: NodeView) -> bool {
    match n {
        NodeView::ActorDir(id) => valid_component(id) && r == id,
        NodeView::ActorFile(id, k) => valid_component(id) && r == id + "/"@ + kind_name(k),
        _ => false,
    }
}

fn parse_actor_rest(rest: &str) -> (r: Option<Node>)
    ensures
        match r {
            Some(n) => names_rest(rest@, n@),
            None => forall|n: NodeView| !names_rest(rest@, n),
        },
{
    proof {
        reveal_strlit("/");
    }
    let rlen = rest.unicode_len();
    let cut = first_slash(rest);
    if cut == 0 {
        proof {
            assert forall|n: NodeView| !names_rest(rest@, n) by {
                match n {
                    NodeView::ActorFile(i2, k) => {
                        if names_rest(rest@, n) {
                            assert(rest@[0] == i2[0]);
                        }
                    },
                    NodeView::ActorDir(i2) => {},
                    _ => {},
                }
            }
        }
        return None;
    }
    if cut == rlen {
        assert(rest@.subrange(0, cut as int) =~= rest@);
        let id = String::from_str(rest);
        proof {
            assert forall|n: NodeView| names_rest(rest@, n) implies n == NodeView::ActorDir(rest@) by {
                match n {
                    NodeView::ActorFile(i2, k) => {
                        assert(rest@[i2.len() as int] == '/');
                    },
                    _ => {},
                }
            }
        }
        return Some(Node::ActorDir(id));
    }
    let id_part = rest.substring_char(0, cut);
    let name_part = rest.substring_char(cut + 1, rlen);
    assert(rest@ =~= id_part@ + "/"@ + name_part@);
    let kind = kind_of(name_part);
    match kind {
        Some(k) => {
            let id = String::from_str(id_part);
            Some(Node::ActorFile(id, k))
        },
        None => {
            proof {
                assert forall|n: NodeView| !names_rest(rest@, n) by {
                    match n {
                        NodeView::ActorFile(i2, k2) => {
                            if names_rest(rest@, n) {
                                if i2.len() < cut {
                                    assert(rest@[i2.len() as int] == '/');
                                    assert(rest@.subrange(0, cut as int)[i2.len() as int] == '/');
                                } else if i2.len() > cut {
                                    assert(i2[cut as int] == '/');
                                }
                                assert(i2 =~= id_part@);
                                assert(name_part@ =~= kind_name(k2));
                            }
                        },
                        NodeView::ActorDir(i2) => {
                            if names_rest(rest@, n) {
                                assert(i2[cut as int] == '/');
                            }
                        },
                        _ => {},
                    }
                }
            }
            None
        },
    }
}

/// The node a path text names, if any.
pub open spec fn node_at(p: Seq<char>) -> Option<NodeView> {
    if exists|n: NodeView| names(p, n) {
        Some(choose|n: NodeView| names(p, n))
    } else {
        None
    }
}

pub open spec fn opt_node_view(r: Option<Node>) -> Option<NodeView> {
    match r {
        Some(n) => Some(n@),
        None => None,
    }
}

/// The node that a path text names, if any.
pub fn parse_path(path: &str) -> (r: Option<Node>)
    ensures
        opt_node_view(r) == node_at(path@),
{
    let r = parse_names(path);
    proof {
        if r is Some {
            lemma_names_unique(path@, r->0@, choose|m: NodeView| names(path@, m));
        }
    }
    r
}

fn parse_names(path: &str) -> (r: Option<Node>)
    ensures
        match r {
            Some(n) => names(path@, n@),
            None => forall|n: NodeView| !names(path@, n),
        },
{
    proof {
        reveal_strlit("/actors/");
    }
    let len = path.unicode_len();
    if len == 0 || same_text(path, "/") {
        return Some(Node::Root);
    }
    if same_text(path, "/actors") {
        return Some(Node::Actors);
    }
    if same_text(path, "/spawn_queue") {
        return Some(Node::SpawnQueue);
    }
    if len <= 8 || !same_text(path.substring_char(0, 8), "/actors/") {
        proof {
            assert forall|n: NodeView| !names(path@, n) by {
                match n {
                    NodeView::ActorDir(id) => {
                        if names(path@, n) {
                            assert(path@.subrange(0, 8) =~= "/actors/"@);
                        }
                    },
                    NodeView::ActorFile(id, k) => {
                        if names(path@, n) {
                            assert(path@.subrange(0, 8) =~= "/actors/"@);
                        }
                    },
                    _ => {},
                }
            }
        }
        return None;
    }
    let rest = path.substring_char(8, len);
    assert(path@ =~= "/actors/"@ + rest@);
    let r = parse_actor_rest(rest);
    proof {
        assert forall|n: NodeView| names(path@, n) <==> names_rest(rest@, n) by {
            match n {
                NodeView::ActorDir(id) => {
                    if names(path@, n) {
                        assert(rest@ =~= path@.subrange(8, path@.len() as int));
                        assert(id =~= path@.subrange(8, path@.len() as int));
                    }
                },
                NodeView::ActorFile(id, k) => {
                    if names(path@, n) {
                        let q = id + "/"@ + kind_name(k);
                        assert(path@ =~= "/actors/"@ + q);
                        assert(rest@ =~= path@.subrange(8, path@.len() as int));
                        assert(q =~= path@.subrange(8, path@.len() as int));
                    }
                    if names_rest(rest@, n) {
                        assert(path@ =~= "/actors/"@ + id + "/"@ + kind_name(k));
                    }
                },
                _ => {},
            }
        }
    }
    r
}

proof fn lemma_kind_name_injective(k1: FileKind, k2: FileKind)
    requires
        kind_name(k1) == kind_name(k2),
    ensures
        k1 == k2,
{
    reveal_strlit("mailbox");
    reveal_strlit("script");
    reveal_strlit("state");
    reveal_strlit("paused");
    assert("mailbox"@.len() == 7);
    assert("script"@.len() == 6);
    assert("state"@.len() == 5);
    assert("paused"@.len() == 6);
    assert("script"@[0] == 's');
    assert("paused"@[0] == 'p');
    if k1 != k2 {
        assert(kind_name(k1).len() != kind_name(k2).len() || kind_name(k1)[0] != kind_name(k2)[0]);
    }
}

/// A path text names at most one node.
pub proof fn lemma_names_unique(p: Seq<char>, n1: NodeView, n2: NodeView)
    requires
        names(p, n1),
        names(p, n2),
    ensures
        n1 == n2,
{
    reveal_strlit("/");
    reveal_strlit("/actors");
    reveal_strlit("/actors/");
    reveal_strlit("/spawn_queue");
    reveal_strlit("mailbox");
    reveal_strlit("script");
    reveal_strlit("state");
    reveal_strlit("paused");
    assert("/"@.len() == 1);
    assert("/actors"@.len() == 7);
    assert("/actors/"@.len() == 8);
    assert("/spawn_queue"@.len() == 12);
    match (n1, n2) {
        (NodeView::ActorDir(a), NodeView::ActorDir(b)) => {
            assert(a =~= p.subrange(8, p.len() as int));
            assert(b =~= p.subrange(8, p.len() as int));
        },
        (NodeView::ActorDir(a), NodeView::ActorFile(b, k)) => {
            assert(a =~= p.subrange(8, p.len() as int));
            assert(p[8 + b.len() as int] == '/');
            assert(a[b.len() as int] == '/');
        },
        (NodeView::ActorFile(b, k), NodeView::ActorDir(a)) => {
            assert(a =~= p.subrange(8, p.len() as int));
            assert(p[8 + b.len() as int] == '/');
            assert(a[b.len() as int] == '/');
        },
        (NodeView::ActorFile(a, k1), NodeView::ActorFile(b, k2)) => {
            if a.len() < b.len() {
                assert(p[8 + a.len() as int] == '/');
                assert(b[a.len() as int] == '/');
            } else if a.len() > b.len() {
                assert(p[8 + b.len() as int] == '/');
                assert(a[b.len() as int] == '/');
            } else {
                assert(a =~= p.subrange(8, 8 + a.len() as int));
                assert(b =~= p.subrange(8, 8 + b.len() as int));
                assert(kind_name(k1) =~= p.subrange(9 + a.len() as int, p.len() as int));
                assert(kind_name(k2) =~= p.subrange(9 + b.len() as int, p.len() as int));
                lemma_kind_name_injective(k1, k2);
            }
        },
        (NodeView::SpawnQueue, NodeView::ActorDir(_)) | (NodeView::SpawnQueue, NodeView::ActorFile(_, _)) => {
            assert(p[1] == 's');
        },
        (NodeView::ActorDir(_), NodeView::SpawnQueue) | (NodeView::ActorFile(_, _), NodeView::SpawnQueue) => {
            assert(p[1] == 's');
        },
        (NodeView::ActorFile(a, k), NodeView::Actors) | (NodeView::Actors, NodeView::ActorFile(a, k)) => {
            assert(p.len() > 8);
        },
        (NodeView::ActorDir(a), NodeView::Actors) | (NodeView::Actors, NodeView::ActorDir(a)) => {
            assert(p.len() > 8);
        },
        (NodeView::ActorFile(a, k), NodeView::Root) | (NodeView::Root, NodeView::ActorFile(a, k)) => {
            assert(p.len() > 8);
        },
        (NodeView::ActorDir(a), NodeView::Root) | (NodeView::Root, NodeView::ActorDir(a)) => {
            assert(p.len() > 8);
        },
        _ => {},
    }
}

} // verus!
