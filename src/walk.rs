//! Walking the virtual tree from a handle's path, and the stable
//! identifiers of paths.
use vstd::prelude::*;
use vstd::string::*;
use crate::overlay::{get_path_info, path_info};
use crate::system::System;
use crate::text::{join_text, same_text};

verus! {

/// The identifier `std`'s default hasher gives a path text.
pub uninterp spec fn qid_path(p: Seq<char>) -> u64;

/// Relies on `BuildHasher::hash_one` with `std`'s `DefaultHasher` built by
/// `Default`, whose keys are fixed: the result depends on the text alone.
#[verifier::external_body]
fn hash_path(path: &str) -> (r: u64)
    ensures
        r == qid_path(path@),
{
    std::hash::BuildHasher::hash_one(
        &std::hash::BuildHasherDefault::<std::collections::hash_map::DefaultHasher>::default(),
        path,
    )
}

/// The path a handle stands for: the empty path stands for the root.
pub open spec fn normal_path(p: Seq<char>) -> Seq<char> {
    if p.len() == 0 {
        "/"@
    } else {
        p
    }
}

/// The qid path of a virtual path: a hash of its text.
pub fn path_to_qid(path: &str) -> (r: u64)
    ensures
        r == qid_path(normal_path(path@)),
{
    if path.unicode_len() == 0 {
        hash_path("/")
    } else {
        hash_path(path)
    }
}

/// The position of the last `/` of a text, if any.
pub open spec fn last_slash(p: Seq<char>) -> Option<int> {
    if exists|k: int| 0 <= k < p.len() && p[k] == '/' {
        Some(choose|k: int| 0 <= k < p.len() && p[k] == '/' && forall|j: int| k < j < p.len() ==> p[j] != '/')
    } else {
        None
    }
}

/// The parent of a path: the text before its last `/`, or the root.
pub open spec fn parent_of(p: Seq<char>) -> Seq<char> {
    if p == "/"@ {
        p
    } else {
        match last_slash(p) {
            Some(k) => if k == 0 {
                "/"@
            } else {
                p.subrange(0, k)
            },
            None => "/"@,
        }
    }
}

/// The path one step from `p` by `name`: `..` goes up, any other name down.
pub open spec fn step_path(p: Seq<char>, name: Seq<char>) -> Seq<char> {
    if name == ".."@ {
        parent_of(p)
    } else if p == "/"@ {
        "/"@ + name
    } else {
        p + "/"@ + name
    }
}

/// The paths visited by walking `names` from `start`, one per name.
pub open spec fn walk_paths(start: Seq<char>, names: Seq<Seq<char>>) -> Seq<Seq<char>>
    decreases names.len(),
{
    if names.len() == 0 {
        seq![]
    } else {
        let prev = walk_paths(start, names.drop_last());
        let from = if prev.len() == 0 {
            start
        } else {
            prev.last()
        };
        prev.push(step_path(from, names.last()))
    }
}

fn parent_text(p: &str) -> (r: String)
    ensures
        r@ == parent_of(p@),
{
    if same_text(p, "/") {
        return String::from_str("/");
    }
    let n = p.unicode_len();
    let mut k: usize = n;
    while k > 0 && p.get_char(k - 1) != '/'
        invariant
            k <= n,
            n == p@.len(),
            forall|j: int| k <= j < n ==> p@[j] != '/',
        decreases k,
    {
        k = k - 1;
    }
    if k == 0 {
        proof {
            assert(!(exists|j: int| 0 <= j < p@.len() && p@[j] == '/'));
        }
        return String::from_str("/");
    }
    let at = k - 1;
    proof {
        let w = choose|q: int| 0 <= q < p@.len() && p@[q] == '/' && forall|j: int| q < j < p@.len() ==> p@[j] != '/';
        assert(p@[at as int] == '/');
        assert(w == at);
    }
    if at == 0 {
        String::from_str("/")
    } else {
        String::from_str(p.substring_char(0, at))
    }
}

fn step_text(p: &str, name: &str) -> (r: String)
    ensures
        r@ == step_path(p@, name@),
{
    if same_text(name, "..") {
        parent_text(p)
    } else if same_text(p, "/") {
        join_text("/", name)
    } else {
        let a = join_text(p, "/");
        join_text(a.as_str(), name)
    }
}

/// One resolved step of a walk: the path reached and whether it is a directory.
#[derive(Debug)]
pub struct WalkStep {
    pub path: String,
    pub is_dir: bool,
}

/// The outcome of a walk: the steps that resolved, in order, and where the
/// new handle stands.
#[derive(Debug)]
pub struct WalkResult {
    pub steps: Vec<WalkStep>,
    pub path: String,
    pub is_dir: bool,
}

pub open spec fn texts(s: Seq<String>) -> Seq<Seq<char>> {
    s.map_values(|t: String| t@)
}

/// Walks `names` from `start`. Each step must reach an existing node; the
/// walk stops at the first that does not. When every name resolved, the
/// new handle stands at the last path; otherwise (and for an empty walk)
/// it stays at the start.
pub fn walk(sys: &System, start: &str, start_is_dir: bool, names: &Vec<String>) -> (r: WalkResult)
    requires
        sys.wf(),
    ensures
        ({
            let paths = walk_paths(normal_path(start@), texts(names@));
            let k = r.steps@.len();
            &&& k <= names@.len()
            &&& forall|i: int| 0 <= i < k ==> (#[trigger] r.steps@[i]).path@ == paths[i]
                && path_info(sys@, paths[i]).exists && r.steps@[i].is_dir == path_info(
                sys@,
                paths[i],
            ).is_dir
            &&& k < names@.len() ==> !path_info(sys@, paths[k as int]).exists
            &&& if k == names@.len() && k > 0 {
                r.path@ == paths[k - 1] && r.is_dir == r.steps@[k - 1].is_dir
            } else {
                r.path@ == normal_path(start@) && r.is_dir == start_is_dir
            }
        }),
{
    let ghost ns = texts(names@);
    let ghost paths = walk_paths(normal_path(start@), ns);
    proof {
        lemma_walk_paths_len(normal_path(start@), ns);
    }
    let begin = if start.unicode_len() == 0 {
        String::from_str("/")
    } else {
        String::from_str(start)
    };
    let mut cur = begin.clone();
    let mut steps: Vec<WalkStep> = Vec::new();
    let mut i: usize = 0;
    let mut done = false;
    while !done && i < names.len()
        invariant
            sys.wf(),
            i <= names@.len(),
            ns == texts(names@),
            ns.len() == names@.len(),
            paths == walk_paths(normal_path(start@), ns),
            paths.len() == ns.len(),
            begin@ == normal_path(start@),
            steps@.len() == i,
            cur@ == if i == 0 { begin@ } else { paths[i - 1] },
            forall|j: int| 0 <= j < i ==> (#[trigger] steps@[j]).path@ == paths[j]
                && path_info(sys@, paths[j]).exists && steps@[j].is_dir == path_info(sys@, paths[j]).is_dir,
            done ==> i < names@.len() && !path_info(sys@, paths[i as int]).exists,
        decreases (names@.len() - i) * 2 + if done { 0int } else { 1int },
    {
        let next = step_text(cur.as_str(), names[i].as_str());
        proof {
            lemma_walk_paths_index(normal_path(start@), ns, i as int);
            assert(ns[i as int] == names@[i as int]@);
        }
        let info = get_path_info(sys, next.as_str());
        if !info.exists {
            done = true;
        } else {
            let is_dir = info.is_dir;
            cur = next.clone();
            steps.push(WalkStep { path: next, is_dir });
            i = i + 1;
        }
    }
    if i == names.len() && i > 0 {
        let is_dir = steps[i - 1].is_dir;
        WalkResult { steps, path: cur, is_dir }
    } else {
        WalkResult { steps, path: begin, is_dir: start_is_dir }
    }
}

proof fn lemma_walk_paths_len(s: Seq<char>, ns: Seq<Seq<char>>)
    ensures
        walk_paths(s, ns).len() == ns.len(),
    decreases ns.len(),
{
    if ns.len() > 0 {
        lemma_walk_paths_len(s, ns.drop_last());
    }
}

proof fn lemma_walk_paths_index(s: Seq<char>, ns: Seq<Seq<char>>, i: int)
    requires
        0 <= i < ns.len(),
    ensures
        walk_paths(s, ns)[i] == step_path(
            if i == 0 {
                s
            } else {
                walk_paths(s, ns)[i - 1]
            },
            ns[i],
        ),
    decreases ns.len(),
{
    lemma_walk_paths_len(s, ns);
    lemma_walk_paths_len(s, ns.drop_last());
    if i < ns.len() - 1 {
        lemma_walk_paths_index(s, ns.drop_last(), i);
    }
}

} // verus!
