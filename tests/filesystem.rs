use eos::commit::{is_space, write_file, FsError};
use eos::fid::{read_slice, write_at, MyFId};
use eos::listing::{decimal_text, encode_directory_entries, read_directory, select_entries, DirEntryInfo};
use eos::message::{Message, Props};
use eos::order::{lex_le_text, sort_texts};
use eos::overlay::{attributes, get_path_info, read_file, PathInfo};
use eos::path::{parse_path, FileKind, Node};
use eos::system::System;
use eos::walk::{path_to_qid, walk};
use serde_json::Value;

fn json(text: &str) -> Value {
    serde_json::from_str(text).unwrap()
}

fn system_with(ids: &[&str]) -> System {
    let mut sys = System::new();
    for id in ids {
        sys.spawn_actor(Props { id: Some(id.to_string()), script: format!("// {id}") }, json("{}")).unwrap();
    }
    sys
}

fn commit(sys: &mut System, path: &str, bytes: &[u8]) -> Result<(), FsError> {
    let mut fid = MyFId::new(path.to_string(), false);
    fid.write(0, bytes).unwrap();
    fid.commit(sys)
}

#[test]
fn state_overwrite_through_fsync() {
    let mut sys = system_with(&["x"]);
    assert_eq!(commit(&mut sys, "/actors/x/state", b"{\"k\":\"v\"}"), Ok(()));
    let text = String::from_utf8(read_file(&sys, "/actors/x/state")).unwrap();
    assert!(text.contains("\"k\": \"v\""));
    let v: Value = serde_json::from_str(&text).unwrap();
    assert_eq!(v, json("{\"k\":\"v\"}"));
}

#[test]
fn state_write_then_read_same_value() {
    let mut sys = system_with(&["x"]);
    let written = "[1, {\"a\": null}, \"s\"]";
    write_file(&mut sys, "/actors/x/state", written.as_bytes()).unwrap();
    let back: Value = serde_json::from_slice(&read_file(&sys, "/actors/x/state")).unwrap();
    assert_eq!(back, json(written));
    let pretty = serde_json::to_string_pretty(&json(written)).unwrap();
    assert_eq!(read_file(&sys, "/actors/x/state"), pretty.into_bytes());
}

#[test]
fn invalid_state_is_rejected_and_kept() {
    let mut sys = system_with(&["x"]);
    assert_eq!(write_file(&mut sys, "/actors/x/state", b"{not json"), Err(FsError::Invalid));
    assert_eq!(sys.actors[0].state, json("{}"));
    assert_eq!(write_file(&mut sys, "/actors/x/script", &[0xff, 0xfe]), Err(FsError::Invalid));
    assert_eq!(sys.actors[0].script, "// x");
}

#[test]
fn write_errors_by_path() {
    let mut sys = system_with(&["x"]);
    assert_eq!(write_file(&mut sys, "/actors/ghost/state", b"{}"), Err(FsError::NotFound));
    assert_eq!(write_file(&mut sys, "/spawn_queue", b"[]"), Err(FsError::ReadOnly));
    assert_eq!(write_file(&mut sys, "/elsewhere", b"[]"), Err(FsError::ReadOnly));
    assert_eq!(write_file(&mut sys, "/actors/x/other", b"1"), Err(FsError::ReadOnly));
    assert_eq!(write_file(&mut sys, "/actors/x", b"1"), Err(FsError::IsDir));
    assert_eq!(write_file(&mut sys, "/actors", b"1"), Err(FsError::IsDir));
    let mut dir = MyFId::new("/actors".to_string(), true);
    assert_eq!(dir.write(0, b"1"), Err(FsError::IsDir));
}

#[test]
fn script_and_paused_writes() {
    let mut sys = system_with(&["x"]);
    write_file(&mut sys, "/actors/x/script", "pub fn handle(s, m) { s } // é".as_bytes()).unwrap();
    assert_eq!(sys.actors[0].script, "pub fn handle(s, m) { s } // é");
    write_file(&mut sys, "/actors/x/paused", b"  true\n").unwrap();
    assert!(sys.actors[0].paused);
    assert_eq!(read_file(&sys, "/actors/x/paused"), b"true".to_vec());
    write_file(&mut sys, "/actors/x/paused", b"false").unwrap();
    assert!(!sys.actors[0].paused);
    assert_eq!(write_file(&mut sys, "/actors/x/paused", b"yes"), Err(FsError::Invalid));
    assert!(!sys.actors[0].paused);
}

#[test]
fn mailbox_write_replaces_queue() {
    let mut sys = system_with(&["x"]);
    sys.send(Message { from: None, to: "x".into(), payload: json("0") });
    let text = r#"[{"from":"a","to":"x","payload":{"d":1}},{"from":null,"to":"x","payload":2}]"#;
    write_file(&mut sys, "/actors/x/mailbox", text.as_bytes()).unwrap();
    let mb = &sys.actors[0].mailbox;
    assert_eq!(mb.len(), 2);
    assert_eq!(mb[0].from.as_deref(), Some("a"));
    assert_eq!(mb[0].payload, json("{\"d\":1}"));
    assert_eq!(mb[1].from, None);
    assert_eq!(write_file(&mut sys, "/actors/x/mailbox", b"[{\"to\": 3}]"), Err(FsError::Invalid));
    assert_eq!(write_file(&mut sys, "/actors/x/mailbox", b"{}"), Err(FsError::Invalid));
    assert_eq!(sys.actors[0].mailbox.len(), 2);
    let shown: Value = serde_json::from_slice(&read_file(&sys, "/actors/x/mailbox")).unwrap();
    assert_eq!(shown, json(r#"[{"from":"a","to":"x","payload":{"d":1}},{"from":null,"to":"x","payload":2}]"#));
}

#[test]
fn buffered_writes_sparse_fill() {
    let mut buf = b"abc".to_vec();
    write_at(&mut buf, 5, b"xy");
    assert_eq!(buf, b"abc\0\0xy".to_vec());
    write_at(&mut buf, 1, b"ZZ");
    assert_eq!(buf, b"aZZ\0\0xy".to_vec());
    let mut fid = MyFId::new("/actors/x/state".to_string(), false);
    assert_eq!(fid.write(0, b"{\"a\":"), Ok(5));
    assert_eq!(fid.write(5, b"1}"), Ok(2));
    assert_eq!(fid.write_buffer.as_deref(), Some(&b"{\"a\":1}"[..]));
}

#[test]
fn commit_without_buffer_and_with_error_discards() {
    let mut sys = system_with(&["x"]);
    let mut fid = MyFId::new("/actors/ghost/state".to_string(), false);
    assert_eq!(fid.commit(&mut sys), Ok(()));
    fid.write(0, b"{}").unwrap();
    assert_eq!(fid.commit(&mut sys), Err(FsError::NotFound));
    assert!(fid.write_buffer.is_none());
}

#[test]
fn read_slices() {
    let content = b"hello world".to_vec();
    assert_eq!(read_slice(&content, 6, 3), b"wor".to_vec());
    assert_eq!(read_slice(&content, 6, 100), b"world".to_vec());
    assert_eq!(read_slice(&content, 11, 4), Vec::<u8>::new());
    assert_eq!(read_slice(&content, 50, 4), Vec::<u8>::new());
}

#[test]
fn paths_name_nodes() {
    assert!(matches!(parse_path("/"), Some(Node::Root)));
    assert!(matches!(parse_path(""), Some(Node::Root)));
    assert!(matches!(parse_path("/actors"), Some(Node::Actors)));
    assert!(matches!(parse_path("/spawn_queue"), Some(Node::SpawnQueue)));
    assert!(matches!(parse_path("/actors/a1"), Some(Node::ActorDir(ref id)) if id == "a1"));
    assert!(matches!(parse_path("/actors/a1/state"), Some(Node::ActorFile(ref id, FileKind::State)) if id == "a1"));
    assert!(matches!(parse_path("/actors/a1/paused"), Some(Node::ActorFile(_, FileKind::Paused))));
    assert!(parse_path("/actors/").is_none());
    assert!(parse_path("/actors//state").is_none());
    assert!(parse_path("/actors/a1/state/more").is_none());
    assert!(parse_path("/actors/a1/nope").is_none());
    assert!(parse_path("/other").is_none());
}

#[test]
fn path_info_and_attributes() {
    let sys = system_with(&["b", "a"]);
    assert_eq!(get_path_info(&sys, "/"), PathInfo { exists: true, is_dir: true, size: 0 });
    assert_eq!(get_path_info(&sys, "/actors/zz"), PathInfo { exists: false, is_dir: false, size: 0 });
    assert_eq!(get_path_info(&sys, "/actors/a/paused"), PathInfo { exists: true, is_dir: false, size: 5 });
    assert_eq!(get_path_info(&sys, "/actors/a/script"), PathInfo { exists: true, is_dir: false, size: 4 });
    assert_eq!(get_path_info(&sys, "/spawn_queue").size, 2);
    let root = attributes(&sys, "/").unwrap();
    assert_eq!(root.mode, 0o040755);
    assert_eq!(root.nlink, 3);
    let actors = attributes(&sys, "/actors").unwrap();
    assert_eq!(actors.nlink, 4);
    assert_eq!(attributes(&sys, "/actors/a").unwrap().nlink, 2);
    let file = attributes(&sys, "/actors/a/paused").unwrap();
    assert_eq!(file.mode, 0o100664);
    assert_eq!(file.nlink, 1);
    assert_eq!((file.uid, file.gid, file.blksize, file.blocks), (1000, 1000, 4096, 1));
    assert!(attributes(&sys, "/nope").is_none());
}

#[test]
fn directories_list_in_order() {
    let sys = system_with(&["zeta", "alpha", "Mid"]);
    let names = |path: &str| read_directory(&sys, path).into_iter().map(|e| e.name).collect::<Vec<_>>();
    assert_eq!(names("/"), vec!["actors", "spawn_queue"]);
    assert_eq!(names("/actors"), vec!["Mid", "alpha", "zeta"]);
    assert_eq!(names("/actors/alpha"), vec!["mailbox", "script", "state", "paused"]);
    assert!(names("/actors/alpha/state").is_empty());
    assert!(names("/actors/none").is_empty());
    let entries = read_directory(&sys, "/actors/alpha");
    assert_eq!(entries[1].size, 8);
    assert!(!entries[1].is_dir);
}

#[test]
fn listing_text_and_window() {
    let entries = vec![
        DirEntryInfo { name: "actors".into(), is_dir: true, size: 0 },
        DirEntryInfo { name: "spawn_queue".into(), is_dir: false, size: 120 },
    ];
    let all = encode_directory_entries(&entries, 0, 1000);
    assert_eq!(String::from_utf8(all).unwrap(), "actors\tdir\t0\nspawn_queue\tfile\t120\n");
    let part = encode_directory_entries(&entries, 9, 6);
    assert_eq!(String::from_utf8(part).unwrap(), "r\t0\nsp");
    assert_eq!(decimal_text(0), "0");
    assert_eq!(decimal_text(18446744073709551615), "18446744073709551615");
}

#[test]
fn readdir_pages_by_size() {
    let entries: Vec<DirEntryInfo> = ["a", "bb", "ccc"]
        .iter()
        .map(|n| DirEntryInfo { name: n.to_string(), is_dir: true, size: 0 })
        .collect();
    assert_eq!(select_entries(&entries, 0, 1000), (0, 3));
    assert_eq!(select_entries(&entries, 0, 51), (0, 2));
    assert_eq!(select_entries(&entries, 1, 26), (1, 2));
    assert_eq!(select_entries(&entries, 0, 10), (0, 1));
    assert_eq!(select_entries(&entries, 0, 0), (0, 0));
    assert_eq!(select_entries(&entries, 7, 100), (3, 3));
}

#[test]
fn sorting_is_lexicographic() {
    assert!(lex_le_text("ab", "abc"));
    assert!(!lex_le_text("b", "abc"));
    assert!(lex_le_text("", ""));
    let sorted = sort_texts(vec!["b".into(), "a".into(), "ab".into(), "B".into()]);
    assert_eq!(sorted, vec!["B", "a", "ab", "b"]);
}

#[test]
fn walking_the_tree() {
    let sys = system_with(&["a"]);
    let names = |v: &[&str]| v.iter().map(|s| s.to_string()).collect::<Vec<_>>();
    let w = walk(&sys, "/", true, &names(&["actors", "a", "state"]));
    assert_eq!(w.steps.iter().map(|s| s.path.as_str()).collect::<Vec<_>>(), vec!["/actors", "/actors/a", "/actors/a/state"]);
    assert_eq!(w.path, "/actors/a/state");
    assert!(!w.is_dir);
    let up = walk(&sys, "/actors/a", true, &names(&["..", ".."]));
    assert_eq!(up.path, "/");
    assert!(up.is_dir);
    let top = walk(&sys, "/", true, &names(&[".."]));
    assert_eq!(top.path, "/");
    let partial = walk(&sys, "/", true, &names(&["actors", "ghost", "state"]));
    assert_eq!(partial.steps.len(), 1);
    assert_eq!(partial.path, "/");
    let clone = walk(&sys, "", true, &names(&[]));
    assert!(clone.steps.is_empty());
    assert_eq!(clone.path, "/");
}

#[test]
fn qids_follow_paths() {
    assert_eq!(path_to_qid(""), path_to_qid("/"));
    assert_eq!(path_to_qid("/actors"), path_to_qid("/actors"));
    assert_ne!(path_to_qid("/actors"), path_to_qid("/spawn_queue"));
}

#[test]
fn fid_defaults_to_root() {
    let f = MyFId::new(String::new(), true);
    assert_eq!(f.path, "/");
    let r = MyFId::root();
    assert_eq!(r.path, "/");
    assert!(r.is_dir && r.write_buffer.is_none());
}

#[test]
fn pausing_twice_through_the_file_is_pausing_once() {
    let mut sys = system_with(&["x", "y"]);
    write_file(&mut sys, "/actors/x/paused", b"true").unwrap();
    let once: Vec<bool> = sys.actors.iter().map(|a| a.paused).collect();
    write_file(&mut sys, "/actors/x/paused", b"true").unwrap();
    let twice: Vec<bool> = sys.actors.iter().map(|a| a.paused).collect();
    assert_eq!(once, vec![true, false]);
    assert_eq!(once, twice);
}

#[test]
fn white_space_is_unicode_white_space() {
    for c in [' ', '\t', '\n', '\r', '\u{b}', '\u{c}', '\u{85}', '\u{a0}', '\u{1680}', '\u{2000}', '\u{200a}', '\u{2028}', '\u{2029}', '\u{202f}', '\u{205f}', '\u{3000}'] {
        assert!(is_space(c));
        assert_eq!(is_space(c), c.is_whitespace());
    }
    for c in ['t', 'e', '0', '\u{200b}', '\u{feff}', '\u{180e}'] {
        assert!(!is_space(c));
        assert_eq!(is_space(c), c.is_whitespace());
    }
    let mut sys = system_with(&["x"]);
    write_file(&mut sys, "/actors/x/paused", "\u{3000}true\u{a0}".as_bytes()).unwrap();
    assert!(sys.actors[0].paused);
}

#[test]
fn sorting_keeps_duplicates() {
    let sorted = sort_texts(vec!["b".into(), "a".into(), "b".into()]);
    assert_eq!(sorted, vec!["a", "b", "b"]);
}
