//! The filesystem overlay's semantics: what each path of the virtual tree
//! holds, its attributes, directory listings, reads, buffered writes and
//! their commit.
use vstd::prelude::*;
use vstd::utf8::*;
use vstd::string::*;
use crate::path::{node_at, node_exists, node_is_dir, parse_path, Node, NodeView};
use crate::render::{actor_file_text, file_text, format_spawn_queue};
use crate::system::{System, SystemView};

verus! {

/// The node a path names, when it exists in the system's current tree.
pub open spec fn live_node(s: SystemView, p: Seq<char>) -> Option<NodeView> {
    match node_at(p) {
        Some(n) => if node_exists(s, n) {
            Some(n)
        } else {
            None
        },
        None => None,
    }
}

/// The bytes of a file node: the UTF-8 encoding of its text.
pub open spec fn file_bytes(s: SystemView, n: NodeView) -> Seq<u8> {
    encode_utf8(file_text(s, n))
}

/// Whether a path exists, whether it is a directory, and the byte size of
/// its content (0 for directories).
#[derive(Clone, Copy, Debug, PartialEq, Eq, Structural)]
pub struct PathInfo {
    pub exists: bool,
    pub is_dir: bool,
    pub size: u64,
}

pub open spec fn path_info(s: SystemView, p: Seq<char>) -> PathInfo {
    match live_node(s, p) {
        Some(n) => PathInfo {
            exists: true,
            is_dir: node_is_dir(n),
            size: if node_is_dir(n) {
                0
            } else {
                file_bytes(s, n).len() as u64
            },
        },
        None => PathInfo { exists: false, is_dir: false, size: 0 },
    }
}

/// The node a path names if it exists now.
pub fn lookup(sys: &System, path: &str) -> (r: Option<Node>)
    requires
        sys.wf(),
    ensures
        opt_view(r) == live_node(sys@, path@),
{
    let n = parse_path(path);
    match n {
        Some(Node::ActorDir(id)) => {
            if sys.find(id.as_str()).is_some() {
                Some(Node::ActorDir(id))
            } else {
                None
            }
        },
        Some(Node::ActorFile(id, k)) => {
            if sys.find(id.as_str()).is_some() {
                Some(Node::ActorFile(id, k))
            } else {
                None
            }
        },
        other => other,
    }
}

pub open spec fn opt_view(r: Option<Node>) -> Option<NodeView> {
    match r {
        Some(n) => Some(n@),
        None => None,
    }
}

/// The text of an existing file node.
pub fn node_text(sys: &System, node: &Node) -> (r: String)
    requires
        sys.wf(),
        node_exists(sys@, node@),
        !node_is_dir(node@),
    ensures
        r@ == file_text(sys@, node@),
{
    match node {
        Node::ActorFile(id, k) => {
            let i = sys.find(id.as_str()).unwrap();
            assert(sys@.actors[i as int] == sys.actors@[i as int]@);
            actor_file_text(&sys.actors[i], *k)
        },
        _ => format_spawn_queue(sys),
    }
}

/// Whether `path` exists, whether it is a directory, and its content size.
pub fn get_path_info(sys: &System, path: &str) -> (r: PathInfo)
    requires
        sys.wf(),
    ensures
        r == path_info(sys@, path@),
{
    match lookup(sys, path) {
        Some(n) => {
            match n {
                Node::Root | Node::Actors | Node::ActorDir(_) => PathInfo { exists: true, is_dir: true, size: 0 },
                _ => {
                    let t = node_text(sys, &n);
                    let bytes = t.as_str().as_bytes_vec();
                    let size = bytes.len() as u64;
                    PathInfo { exists: true, is_dir: false, size }
                },
            }
        },
        None => PathInfo { exists: false, is_dir: false, size: 0 },
    }
}

/// The bytes of the file at `path`; empty when it names no existing file.
pub fn read_file(sys: &System, path: &str) -> (r: Vec<u8>)
    requires
        sys.wf(),
    ensures
        r@ == match live_node(sys@, path@) {
            Some(n) => if node_is_dir(n) {
                Seq::<u8>::empty()
            } else {
                file_bytes(sys@, n)
            },
            None => Seq::<u8>::empty(),
        },
{
    match lookup(sys, path) {
        Some(n) => {
            match n {
                Node::Root | Node::Actors | Node::ActorDir(_) => Vec::new(),
                _ => {
                    let t = node_text(sys, &n);
                    t.as_str().as_bytes_vec()
                },
            }
        },
        None => Vec::new(),
    }
}

/// The file type bit of a directory.
pub const S_IFDIR: u32 = 0o040000;
/// The file type bit of a regular file.
pub const S_IFREG: u32 = 0o100000;
/// The permissions of a directory (rwxr-xr-x).
pub const DIR_MODE: u32 = 0o755;
/// The permissions of a file (rw-rw-r--).
pub const FILE_MODE: u32 = 0o664;
/// The owner of every node.
pub const OWNER_ID: u32 = 1000;
/// The preferred I/O block size reported for every node.
pub const BLOCK_SIZE: u64 = 4096;

/// The attributes of a node, but for its timestamps.
#[derive(Clone, Copy, Debug, PartialEq, Eq, Structural)]
pub struct Attr {
    pub is_dir: bool,
    pub mode: u32,
    pub nlink: u64,
    pub uid: u32,
    pub gid: u32,
    pub size: u64,
    pub blksize: u64,
    pub blocks: u64,
}

/// The number of subdirectories of a directory node.
pub open spec fn subdirs(s: SystemView, n: NodeView) -> int {
    match n {
        NodeView::Root => 1,
        NodeView::Actors => s.actors.len() as int,
        _ => 0,
    }
}

pub open spec fn attr_of(s: SystemView, n: NodeView) -> Attr {
    let size = path_info_of(s, n).size;
    Attr {
        is_dir: node_is_dir(n),
        mode: if node_is_dir(n) {
            S_IFDIR | DIR_MODE
        } else {
            S_IFREG | FILE_MODE
        },
        nlink: if !node_is_dir(n) {
            1
        } else if subdirs(s, n) <= u64::MAX - 2 {
            (2 + subdirs(s, n)) as u64
        } else {
            u64::MAX
        },
        uid: OWNER_ID,
        gid: OWNER_ID,
        size,
        blksize: BLOCK_SIZE,
        blocks: ((size + 511) / 512) as u64,
    }
}

pub open spec fn path_info_of(s: SystemView, n: NodeView) -> PathInfo {
    PathInfo {
        exists: true,
        is_dir: node_is_dir(n),
        size: if node_is_dir(n) {
            0
        } else {
            file_bytes(s, n).len() as u64
        },
    }
}

/// The attributes of the node at `path`, or `None` when it does not exist.
pub fn attributes(sys: &System, path: &str) -> (r: Option<Attr>)
    requires
        sys.wf(),
    ensures
        match live_node(sys@, path@) {
            Some(n) => r == Some(attr_of(sys@, n)),
            None => r is None,
        },
{
    let info = get_path_info(sys, path);
    if !info.exists {
        return None;
    }
    let node = lookup(sys, path);
    let size = info.size;
    let blocks = size / 512 + if size % 512 > 0 {
        1u64
    } else {
        0u64
    };
    assert(blocks == (size + 511) / 512) by (nonlinear_arith)
        requires
            blocks == size / 512 + if size % 512 > 0 {
                1int
            } else {
                0int
            },
    ;
    if info.is_dir {
        let sub: u64 = match node {
            Some(Node::Root) => 1,
            Some(Node::Actors) => sys.actors.len() as u64,
            _ => 0,
        };
        assert(sys@.actors.len() == sys.actors@.len());
        let nlink = if sub <= u64::MAX - 2 {
            2 + sub
        } else {
            u64::MAX
        };
        Some(Attr {
            is_dir: true,
            mode: S_IFDIR | DIR_MODE,
            nlink,
            uid: OWNER_ID,
            gid: OWNER_ID,
            size,
            blksize: BLOCK_SIZE,
            blocks,
        })
    } else {
        Some(Attr {
            is_dir: false,
            mode: S_IFREG | FILE_MODE,
            nlink: 1,
            uid: OWNER_ID,
            gid: OWNER_ID,
            size,
            blksize: BLOCK_SIZE,
            blocks,
        })
    }
}

} // verus!
