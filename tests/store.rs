use eos::config::{root, Dirs};
use eos::store::{stored_value, Db};
use serde_json::Value;

#[test]
fn dirs_are_under_root() {
    let d = Dirs::get();
    assert_eq!(d.root_dir, "/explore");
    assert_eq!(d.actor_dir, "/explore/actors");
    assert_eq!(d.spawn_dir, "/explore/spawn");
    assert_eq!(d.send_dir, "/explore/send");
    assert_eq!(d.storage_dir, "/explore/actors/storage");
    assert_eq!(root(), ".");
}

#[test]
fn db_file_path() {
    assert_eq!(Db::new("/var/store", "actor1").file(), "/var/store/actor1");
}

#[test]
fn db_store_load_delete() {
    let db = Db::new("/tmp", "eos-store-test-db");
    let v: Value = serde_json::from_str("{\"k\": [1, 2]}").unwrap();
    db.store("key", &v).unwrap();
    assert_eq!(db.has_key("key"), Ok(true));
    assert_eq!(db.load("key"), Ok(Some(v)));
    db.delete("key").unwrap();
    assert_eq!(db.has_key("key"), Ok(false));
    assert_eq!(db.load("key"), Ok(None));
    assert!(db.compact().is_ok());
}

#[test]
fn stored_value_parses_or_fails() {
    assert_eq!(stored_value(None), Ok(None));
    let v: Value = serde_json::from_str("{\"a\": 1}").unwrap();
    assert_eq!(stored_value(Some("{\"a\": 1}".to_string())), Ok(Some(v)));
    assert!(stored_value(Some("{oops".to_string())).is_err());
}
