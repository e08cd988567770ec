//! Where the runtime keeps its files.
use vstd::prelude::*;
use crate::text::join_text;

verus! {

/// The directory the runtime serves from when run as a service.
pub const ROOT: &'static str = "/explore";

/// The working root of the command-line tool.
pub const WORK_ROOT: &'static str = ".";

/// The directory of the log files, under the working root.
pub const LOGS: &'static str = "logs";

/// The directory of the actors' stores, under the working root.
pub const STORAGE: &'static str = "storage";

/// The working root of the command-line tool.
pub fn root() -> (r: String)
    ensures
        r@ == WORK_ROOT@,
{
    String::from_str(WORK_ROOT)
}

/// The directories of a service installation.
#[derive(Debug)]
pub struct Dirs {
    pub root_dir: String,
    pub spawn_dir: String,
    pub actor_dir: String,
    pub send_dir: String,
    pub storage_dir: String,
}

/// `base` joined with the relative component `name`.
pub open spec fn joined(base: Seq<char>, name: Seq<char>) -> Seq<char> {
    base + "/"@ + name
}

fn join_path(base: &str, name: &str) -> (r: String)
    ensures
        r@ == joined(base@, name@),
{
    let b = join_text(base, "/");
    join_text(b.as_str(), name)
}

impl Dirs {
    /// The directories under [`ROOT`]: `spawn`, `actors`, `send`, and the
    /// stores under `actors/storage`.
    pub fn get() -> (r: Dirs)
        ensures
            r.root_dir@ == ROOT@,
            r.spawn_dir@ == joined(ROOT@, "spawn"@),
            r.actor_dir@ == joined(ROOT@, "actors"@),
            r.send_dir@ == joined(ROOT@, "send"@),
            r.storage_dir@ == joined(joined(ROOT@, "actors"@), "storage"@),
    {
        let root_dir = String::from_str(ROOT);
        let actor_dir = join_path(ROOT, "actors");
        let storage_dir = join_path(actor_dir.as_str(), "storage");
        Dirs {
            root_dir,
            spawn_dir: join_path(ROOT, "spawn"),
            actor_dir,
            send_dir: join_path(ROOT, "send"),
            storage_dir,
        }
    }
}

} // verus!
