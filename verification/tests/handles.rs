use valkeyre::codec::encode;
use valkeyre::database::Database;
use valkeyre::listing::{decode_keys, select_values};
use valkeyre::room::Room;
use valkeyre::store::Store;

/// A stand-in for the disk: the set of files the I/O layer would maintain,
/// keyed by the exact paths the library computes.
struct Disk {
    files: Vec<(String, String)>,
}

impl Disk {
    fn new() -> Disk {
        Disk { files: Vec::new() }
    }

    fn write(&mut self, path: String, value: &str) {
        self.files.retain(|(p, _)| *p != path);
        self.files.push((path, value.to_string()));
    }

    fn read(&self, path: &str) -> Option<String> {
        self.files
            .iter()
            .find(|(p, _)| p == path)
            .map(|(_, v)| v.clone())
    }

    fn remove_file(&mut self, path: &str) -> bool {
        self.files.retain(|(p, _)| p != path);
        true
    }

    fn list(&self, dir: &str) -> Vec<String> {
        let prefix = format!("{dir}/");
        self.files
            .iter()
            .filter_map(|(p, _)| p.strip_prefix(&prefix))
            .filter(|rest| !rest.contains('/'))
            .map(|rest| rest.to_string())
            .collect()
    }

    fn remove_dir_all(&mut self, dir: &str) -> bool {
        let prefix = format!("{dir}/");
        self.files.retain(|(p, _)| !p.starts_with(&prefix));
        true
    }

    fn rename_dir(&mut self, from: &str, to: &str) -> bool {
        let from_prefix = format!("{from}/");
        for (p, _) in self.files.iter_mut() {
            if p.starts_with(&from_prefix) {
                let rest = p[from_prefix.len()..].to_string();
                *p = format!("{to}/{rest}");
            }
        }
        true
    }
}

fn set(disk: &mut Disk, room: &Room, key: &str, value: &str) -> bool {
    disk.write(room.key_path(key), value);
    true
}

fn get(disk: &Disk, room: &Room, key: &str) -> Option<String> {
    disk.read(&room.key_path(key))
}

fn has(disk: &Disk, room: &Room, key: &str) -> bool {
    get(disk, room, key).is_some()
}

fn remove(disk: &mut Disk, room: &Room, key: &str) -> bool {
    disk.remove_file(&room.key_path(key))
}

fn keys(disk: &Disk, room: &Room) -> Vec<String> {
    decode_keys(&disk.list(&room.dir_path()))
}

fn values(disk: &Disk, room: &Room) -> Vec<String> {
    let names = disk.list(&room.dir_path());
    let contents: Vec<String> = names
        .iter()
        .map(|n| disk.read(&format!("{}/{}", room.dir_path(), n)).unwrap())
        .collect();
    select_values(&names, &contents)
}

#[test]
fn store_init_computes_encoded_directory() {
    let store = Store::init(".".to_string(), "shop");
    assert_eq!(store.get_name(), "shop");
    assert_eq!(store.dir_path(), "./73686f70");
}

#[test]
fn room_paths_nest_under_the_store() {
    let store = Store::init(".".to_string(), "shop");
    let room = store.init_room("orders");
    assert_eq!(room.get_name(), "orders");
    assert_eq!(room.dir_path(), format!("./73686f70/{}", encode("orders")));
    assert_eq!(
        room.key_path("42"),
        format!("./73686f70/{}/3432", encode("orders"))
    );
    assert_eq!(store.room_dir_path("orders"), room.dir_path());
}

#[test]
fn database_and_table_mirror_store_and_room() {
    let db = Database::init(".".to_string(), "Valkeyre");
    assert_eq!(db.get_name(), "Valkeyre");
    assert_eq!(db.dir_path(), format!("./{}", encode("Valkeyre")));
    let table = db.init_table("users");
    assert_eq!(table.get_name(), "users");
    assert_eq!(table.dir_path(), db.table_dir_path("users"));
    assert_eq!(
        table.key_path("7"),
        format!("{}/{}", table.dir_path(), encode("7"))
    );
}

#[test]
fn init_twice_yields_handles_on_the_same_state() {
    let mut disk = Disk::new();
    let a = Store::init(".".to_string(), "shop").init_room("orders");
    let b = Store::init(".".to_string(), "shop").init_room("orders");
    assert_eq!(a.dir_path(), b.dir_path());
    assert!(set(&mut disk, &a, "42", "paid"));
    assert_eq!(get(&disk, &b, "42").as_deref(), Some("paid"));
}

#[test]
fn set_then_get_is_consistent_until_overwritten_or_removed() {
    let mut disk = Disk::new();
    let room = Store::init(".".to_string(), "shop").init_room("orders");
    assert!(set(&mut disk, &room, "42", "paid"));
    assert_eq!(get(&disk, &room, "42").as_deref(), Some("paid"));
    assert!(has(&disk, &room, "42"));

    // writing another key leaves the entry untouched
    assert!(set(&mut disk, &room, "43", "open"));
    assert_eq!(get(&disk, &room, "42").as_deref(), Some("paid"));

    // overwriting replaces the value
    assert!(set(&mut disk, &room, "42", "refunded"));
    assert_eq!(get(&disk, &room, "42").as_deref(), Some("refunded"));

    // removing ends the entry's life
    assert!(remove(&mut disk, &room, "42"));
    assert_eq!(get(&disk, &room, "42"), None);
    assert!(!has(&disk, &room, "42"));
}

#[test]
fn remove_is_idempotent() {
    let mut disk = Disk::new();
    let room = Store::init(".".to_string(), "shop").init_room("orders");
    // removing an absent key reports success
    assert!(remove(&mut disk, &room, "nope"));
    assert!(set(&mut disk, &room, "42", "paid"));
    assert!(remove(&mut disk, &room, "42"));
    // and a second removal in a row succeeds again
    assert!(remove(&mut disk, &room, "42"));
}

#[test]
fn enumeration_is_robust_against_foreign_files() {
    let mut disk = Disk::new();
    let room = Store::init(".".to_string(), "shop").init_room("orders");
    assert!(set(&mut disk, &room, "k1", "v1"));
    assert!(set(&mut disk, &room, "k2", "v2"));
    // a file the codec never produced appears in the directory
    disk.write(format!("{}/README", room.dir_path()), "junk");

    let mut ks = keys(&disk, &room);
    ks.sort();
    assert_eq!(ks, vec!["k1".to_string(), "k2".to_string()]);
    let mut vs = values(&disk, &room);
    vs.sort();
    assert_eq!(vs, vec!["v1".to_string(), "v2".to_string()]);
}

#[test]
fn rename_preserves_content() {
    let mut disk = Disk::new();
    let store = Store::init(".".to_string(), "shop");
    let mut room = store.init_room("orders");
    assert!(set(&mut disk, &room, "42", "paid"));

    let target = room.rename_target("archive");
    let moved = disk.rename_dir(&room.dir_path(), &target);
    assert!(room.apply_rename("archive", moved));
    assert_eq!(room.get_name(), "archive");

    let reopened = store.init_room("archive");
    assert_eq!(reopened.dir_path(), room.dir_path());
    assert_eq!(get(&disk, &reopened, "42").as_deref(), Some("paid"));
}

#[test]
fn failed_rename_leaves_the_handle_unchanged() {
    let store = Store::init(".".to_string(), "shop");
    let mut room = store.init_room("orders");
    let dir_before = room.dir_path();
    // the I/O layer reports that the directory did not move
    assert!(!room.apply_rename("archive", false));
    assert_eq!(room.get_name(), "orders");
    assert_eq!(room.dir_path(), dir_before);
}

#[test]
fn truncate_empties_the_room() {
    let mut disk = Disk::new();
    let room = Store::init(".".to_string(), "shop").init_room("orders");
    assert!(set(&mut disk, &room, "42", "paid"));
    assert!(set(&mut disk, &room, "43", "open"));
    assert!(disk.remove_dir_all(&room.dir_path()));
    assert!(keys(&disk, &room).is_empty());
    assert!(!has(&disk, &room, "42"));
    assert!(!has(&disk, &room, "43"));
}

#[test]
fn shop_scenario() {
    let mut disk = Disk::new();
    let store = Store::init(".".to_string(), "shop");
    let room = store.init_room("orders");
    assert!(set(&mut disk, &room, "42", "paid"));
    assert_eq!(get(&disk, &room, "42").as_deref(), Some("paid"));
    assert_eq!(keys(&disk, &room), vec!["42".to_string()]);
    assert!(remove(&mut disk, &room, "42"));
    assert_eq!(get(&disk, &room, "42"), None);
    assert!(disk.remove_dir_all(&store.room_dir_path("orders")));
    let reopened = store.init_room("orders");
    assert!(keys(&disk, &reopened).is_empty());
}
