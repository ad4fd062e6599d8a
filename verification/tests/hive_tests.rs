use hivedb::cell::{Cell, CellDataType};
use hivedb::error::HiveError;
use hivedb::geometry::Direction;
use hivedb::hive::{
    generate_hive_id, hive_id_from, sanitize_name, Hive, HiveManager, HIVE_ID_ATTEMPTS,
    HIVE_ID_BYTES,
};
use hivedb::schema::Schema;
use std::path::PathBuf;
use tempfile::tempdir;

fn cell(id: &str, coordinates: (i32, i32)) -> Cell {
    Cell::assemble(id.to_string(), coordinates, CellDataType::Binary, id.as_bytes().to_vec(), false, 1)
}

fn hive(dimensions: (usize, usize)) -> Hive {
    Hive::new(
        "test-hive".to_string(),
        "A test hive".to_string(),
        "test-user".to_string(),
        PathBuf::from("/nowhere/test-hive"),
        dimensions,
    )
    .unwrap()
}

#[test]
fn test_hive_creation() {
    let temp_dir = tempdir().unwrap();
    let hive = Hive::new(
        "test-hive".to_string(),
        "A test hive".to_string(),
        "test-user".to_string(),
        temp_dir.path().to_path_buf(),
        (64, 64),
    )
    .unwrap();

    assert_eq!(hive.name, "test-hive");
    assert_eq!(hive.description, "A test hive");
    assert_eq!(hive.metadata.owner, "test-user");
    assert_eq!(hive.metadata.version, 1);
    assert_eq!(hive.cell_count(), 0);
}

#[test]
fn test_hive_metadata() {
    let temp_dir = tempdir().unwrap();
    let mut hive = Hive::new(
        "test-hive".to_string(),
        "A test hive".to_string(),
        "test-user".to_string(),
        temp_dir.path().to_path_buf(),
        (64, 64),
    )
    .unwrap();

    // Add tags
    hive.add_tag("important".to_string()).unwrap();
    hive.add_tag("test".to_string()).unwrap();

    assert_eq!(hive.metadata.tags.len(), 2);
    assert!(hive.metadata.tags.contains(&"important".to_string()));
    assert!(hive.metadata.tags.contains(&"test".to_string()));

    // Add properties
    hive.set_property("priority".to_string(), "high".to_string()).unwrap();
    hive.set_property("category".to_string(), "test".to_string()).unwrap();

    assert_eq!(hive.get_property("priority"), Some(&"high".to_string()));
    assert_eq!(hive.get_property("category"), Some(&"test".to_string()));

    // Remove a tag
    hive.remove_tag("important").unwrap();

    assert_eq!(hive.metadata.tags.len(), 1);
    assert!(hive.metadata.tags.contains(&"test".to_string()));

    // Remove a property
    hive.remove_property("priority").unwrap();

    assert_eq!(hive.get_property("priority"), None);
    assert_eq!(hive.get_property("category"), Some(&"test".to_string()));
}

#[test]
fn test_hive_manager() {
    let temp_dir = tempdir().unwrap();
    let mut manager = HiveManager::new(temp_dir.path().to_path_buf());

    // Create a hive
    let hive_id = manager
        .create_hive(
            "test-hive".to_string(),
            "A test hive".to_string(),
            "test-user".to_string(),
            (64, 64),
        )
        .unwrap();

    // Get the hive
    let hive = manager.get_hive(&hive_id).unwrap();

    assert_eq!(hive.name, "test-hive");
    assert_eq!(hive.description, "A test hive");

    // Get by name
    let hive2 = manager.get_hive_by_name("test-hive").unwrap();

    assert_eq!(hive2.id, hive_id);

    // List hives
    let hives = manager.list_hives();

    assert_eq!(hives.len(), 1);
    assert_eq!(hives[0].0, hive_id);
    assert_eq!(hives[0].1, "test-hive");
}

#[test]
fn new_hive_has_a_generated_id_and_the_given_path() {
    let made = hive((4, 4));
    assert!(made.id.starts_with("hive-"));
    assert_eq!(made.id.len(), 5 + 2 * HIVE_ID_BYTES);
    assert!(made.id[5..].chars().all(|c| c.is_ascii_digit() || ('a'..='f').contains(&c)));
    assert_eq!(made.storage_path, PathBuf::from("/nowhere/test-hive"));
    assert_eq!(made.created_at, made.modified_at);
    assert!(made.schema.is_none());
    assert!(made.metadata.tags.is_empty());
    assert!(made.metadata.properties.is_empty());
    assert_eq!(made.cells.dimensions(), (4, 4));
}

#[test]
fn assemble_builds_the_initial_hive() {
    let made = Hive::assemble(
        "hive-x".to_string(),
        "n".to_string(),
        "d".to_string(),
        "o".to_string(),
        PathBuf::from("p"),
        (2, 3),
        99,
    );
    assert_eq!(made.id, "hive-x");
    assert_eq!(made.name, "n");
    assert_eq!(made.description, "d");
    assert_eq!(made.metadata.owner, "o");
    assert_eq!(made.storage_path, PathBuf::from("p"));
    assert_eq!(made.created_at, 99);
    assert_eq!(made.modified_at, 99);
    assert_eq!(made.metadata.version, 1);
    assert_eq!(made.cells.dimensions(), (2, 3));
    assert_eq!(made.cell_count(), 0);
}

#[test]
fn hive_ids_are_hex_of_the_bytes() {
    assert_eq!(hive_id_from(&[]), "hive-");
    assert_eq!(hive_id_from(&[0x00, 0x0f, 0x10, 0xab, 0xff]), "hive-000f10abff");
    assert_eq!(
        hive_id_from(&[1, 2, 3, 4, 5, 6, 7, 8, 9, 10, 11, 12, 13, 14, 15, 16]),
        "hive-0102030405060708090a0b0c0d0e0f10"
    );
    let first = generate_hive_id();
    let second = generate_hive_id();
    assert_eq!(first.len(), 37);
    assert!(first.starts_with("hive-"));
    assert_ne!(first, second);
    assert_eq!(HIVE_ID_BYTES, 16);
    assert!(HIVE_ID_ATTEMPTS >= 1);
}

#[test]
fn sanitize_name_replaces_unsafe_characters() {
    assert_eq!(sanitize_name("test-hive"), "test-hive");
    assert_eq!(sanitize_name("my hive/1"), "my_hive_1");
    assert_eq!(sanitize_name("a_b-c.d"), "a_b-c_d");
    assert_eq!(sanitize_name("../../etc"), "______etc");
    assert_eq!(sanitize_name(""), "");
    assert_eq!(sanitize_name("خلية 7"), "خلية_7");
    assert_eq!(sanitize_name("tab\there"), "tab_here");
    assert_eq!(sanitize_name("ABCxyz019"), "ABCxyz019");
}

#[test]
fn touch_at_raises_version_and_sets_time() {
    let mut made = hive((4, 4));
    made.touch_at(5);
    assert_eq!(made.metadata.version, 2);
    assert_eq!(made.modified_at, 5);
    made.touch_at(3);
    assert_eq!(made.metadata.version, 3);
    assert_eq!(made.modified_at, 3);
}

#[test]
fn every_change_raises_the_version_by_one() {
    let mut made = hive((4, 4));
    let created = made.created_at;
    let mut version = 1;

    made.add_cell(cell("a", (1, 1))).unwrap();
    version += 1;
    assert_eq!(made.metadata.version, version);
    assert!(made.modified_at >= created);

    made.add_cell(cell("b", (2, 1))).unwrap();
    version += 1;
    assert_eq!(made.metadata.version, version);

    made.remove_cell((1, 1)).unwrap();
    version += 1;
    assert_eq!(made.metadata.version, version);

    made.set_schema(Schema::new("s".to_string(), "d".to_string(), "1".to_string())).unwrap();
    version += 1;
    assert_eq!(made.metadata.version, version);
    assert_eq!(made.schema.as_ref().unwrap().name, "s");

    made.add_tag("t".to_string()).unwrap();
    version += 1;
    assert_eq!(made.metadata.version, version);

    made.remove_tag("t").unwrap();
    version += 1;
    assert_eq!(made.metadata.version, version);

    made.set_property("k".to_string(), "v".to_string()).unwrap();
    version += 1;
    assert_eq!(made.metadata.version, version);

    made.remove_property("k").unwrap();
    version += 1;
    assert_eq!(made.metadata.version, version);
    assert_eq!(made.created_at, created);
}

#[test]
fn changes_that_change_nothing_leave_the_version() {
    let mut made = hive((4, 4));
    made.add_tag("t".to_string()).unwrap();
    assert_eq!(made.metadata.version, 2);
    made.add_tag("t".to_string()).unwrap();
    assert_eq!(made.metadata.version, 2);
    assert_eq!(made.metadata.tags, vec!["t".to_string()]);
    made.remove_tag("absent").unwrap();
    assert_eq!(made.metadata.version, 2);
    made.remove_property("absent").unwrap();
    assert_eq!(made.metadata.version, 2);
}

#[test]
fn set_property_always_counts_as_a_change() {
    let mut made = hive((4, 4));
    made.set_property("k".to_string(), "v".to_string()).unwrap();
    assert_eq!(made.metadata.version, 2);
    made.set_property("k".to_string(), "v".to_string()).unwrap();
    assert_eq!(made.metadata.version, 3);
    assert_eq!(made.get_property("k"), Some(&"v".to_string()));
    made.set_property("k".to_string(), "w".to_string()).unwrap();
    assert_eq!(made.metadata.version, 4);
    assert_eq!(made.get_property("k"), Some(&"w".to_string()));
}

#[test]
fn failed_cell_changes_leave_the_hive() {
    let mut made = hive((2, 2));
    made.add_cell(cell("a", (0, 0))).unwrap();
    let modified = made.modified_at;
    match made.add_cell(cell("b", (0, 0))) {
        Err(HiveError::CellAlreadyExists) => {}
        other => panic!("expected already-exists, got {:?}", other),
    }
    match made.add_cell(cell("c", (2, 0))) {
        Err(HiveError::OutOfBoundsError) => {}
        other => panic!("expected out-of-bounds, got {:?}", other),
    }
    match made.remove_cell((1, 1)) {
        Err(HiveError::CellNotFound) => {}
        other => panic!("expected not-found, got {:?}", other),
    }
    assert_eq!(made.metadata.version, 2);
    assert_eq!(made.modified_at, modified);
    assert_eq!(made.cell_count(), 1);
    assert_eq!(made.get_cell((0, 0)).unwrap().id, "a");
}

#[test]
fn hive_cells_are_linked_and_found_by_tag() {
    let mut made = hive((4, 4));
    let mut first = cell("a", (1, 1));
    first.add_tag("x".to_string());
    made.add_cell(first).unwrap();
    made.add_cell(cell("b", (2, 1))).unwrap();
    assert_eq!(
        made.get_cell((1, 1)).unwrap().neighbors.get(Direction::East),
        Some(&"b".to_string())
    );
    let found = made.find_cells_by_tag("x");
    assert_eq!(found.len(), 1);
    assert_eq!(found[0].id, "a");
    assert!(made.find_cells_by_tag("y").is_empty());
    assert_eq!(made.cell_count(), 2);
    let removed = made.remove_cell((2, 1)).unwrap();
    assert_eq!(removed.id, "b");
    assert_eq!(made.get_cell((1, 1)).unwrap().neighbors.get(Direction::East), None);
}

#[test]
fn save_succeeds_and_load_is_not_implemented() {
    let made = hive((1, 1));
    assert!(made.save().is_ok());
    match Hive::load(PathBuf::from("/nowhere")) {
        Err(HiveError::NotImplemented) => {}
        other => panic!("expected not-implemented, got {:?}", other),
    }
}

#[test]
fn created_hive_is_listed_until_deleted() {
    let mut manager = HiveManager::new(PathBuf::from("/nowhere"));
    let id = manager
        .create_hive("grid".to_string(), "d".to_string(), "o".to_string(), (4, 4))
        .unwrap();
    let listed = manager.list_hives();
    assert!(listed.iter().any(|(listed_id, name)| *listed_id == id && name == "grid"));
    assert!(manager.contains(&id));
    assert_eq!(manager.get_hive(&id).unwrap().cells.dimensions(), (4, 4));

    manager.delete_hive(&id).unwrap();
    assert!(!manager.list_hives().iter().any(|(listed_id, _)| *listed_id == id));
    assert!(!manager.contains(&id));
    assert!(manager.get_hive(&id).is_none());
    assert!(manager.get_hive_by_name("grid").is_none());
    match manager.delete_hive(&id) {
        Err(HiveError::HiveNotFound) => {}
        other => panic!("expected not-found, got {:?}", other),
    }
}

#[test]
fn storage_path_is_the_sanitized_name_under_the_base_path() {
    let mut manager = HiveManager::new(PathBuf::from("/base"));
    assert_eq!(manager.base_path(), &PathBuf::from("/base"));
    let id = manager
        .create_hive("my hive/1".to_string(), "d".to_string(), "o".to_string(), (1, 1))
        .unwrap();
    assert_eq!(
        manager.get_hive(&id).unwrap().storage_path,
        PathBuf::from("/base").join("my_hive_1")
    );
}

#[test]
fn manager_keeps_hives_in_order_of_creation() {
    let mut manager = HiveManager::new(PathBuf::from("/base"));
    let a = manager.create_hive("a".to_string(), "".to_string(), "".to_string(), (1, 1)).unwrap();
    let b = manager.create_hive("b".to_string(), "".to_string(), "".to_string(), (1, 1)).unwrap();
    let twin = manager.create_hive("a".to_string(), "x".to_string(), "".to_string(), (1, 1)).unwrap();
    assert_ne!(a, b);
    assert_ne!(a, twin);
    assert_eq!(
        manager.list_hives(),
        vec![(a.clone(), "a".to_string()), (b.clone(), "b".to_string()), (twin.clone(), "a".to_string())]
    );
    // Names need not be unique: the first hive of that name is found.
    assert_eq!(manager.get_hive_by_name("a").unwrap().id, a);
    let taken = manager.remove_hive(&a).unwrap();
    assert_eq!(taken.id, a);
    assert_eq!(taken.storage_path, PathBuf::from("/base").join("a"));
    assert_eq!(manager.get_hive_by_name("a").unwrap().id, twin);
    assert_eq!(manager.list_hives(), vec![(b, "b".to_string()), (twin, "a".to_string())]);
    match manager.remove_hive("hive-absent") {
        Err(HiveError::HiveNotFound) => {}
        other => panic!("expected not-found, got {:?}", other.map(|h| h.id)),
    }
}

#[test]
fn register_keeps_a_hive_under_its_id() {
    let mut manager = HiveManager::new(PathBuf::from("/base"));
    let made = Hive::assemble(
        "hive-fixed".to_string(),
        "n".to_string(),
        "d".to_string(),
        "o".to_string(),
        PathBuf::from("/base/n"),
        (2, 2),
        7,
    );
    manager.register(made);
    assert!(manager.contains("hive-fixed"));
    assert_eq!(manager.get_hive("hive-fixed").unwrap().created_at, 7);
    assert_eq!(manager.list_hives(), vec![("hive-fixed".to_string(), "n".to_string())]);
}

#[test]
fn save_all_and_load_all_succeed() {
    let mut manager = HiveManager::new(PathBuf::from("/base"));
    manager.create_hive("a".to_string(), "".to_string(), "".to_string(), (1, 1)).unwrap();
    assert!(manager.save_all().is_ok());
    assert!(manager.load_all().is_ok());
    assert_eq!(manager.list_hives().len(), 1);
}

#[test]
fn a_hive_in_the_manager_can_be_changed_in_place() {
    let mut manager = HiveManager::new(PathBuf::from("/base"));
    let id = manager.create_hive("a".to_string(), "".to_string(), "".to_string(), (4, 4)).unwrap();
    {
        let found = manager.get_hive_mut(&id).unwrap();
        found.add_cell(cell("c", (0, 0))).unwrap();
        found.add_tag("t".to_string()).unwrap();
    }
    assert!(manager.get_hive_mut("hive-absent").is_none());
    let changed = manager.get_hive(&id).unwrap();
    assert_eq!(changed.cell_count(), 1);
    assert_eq!(changed.metadata.version, 3);
    assert_eq!(changed.metadata.tags, vec!["t".to_string()]);
    assert_eq!(changed.id, id);
}

#[test]
fn hives_are_stamped_with_the_current_time() {
    let made = hive((1, 1));
    let now = std::time::SystemTime::now()
        .duration_since(std::time::UNIX_EPOCH)
        .unwrap()
        .as_secs();
    assert!(made.created_at <= now);
    assert!(now - made.created_at < 60);
}

#[test]
fn a_new_hive_gets_the_first_free_id() {
    let mut manager = HiveManager::new(PathBuf::from("/base"));
    let ids = |names: &[&str]| -> Vec<String> { names.iter().map(|n| n.to_string()).collect() };
    let first = manager
        .create_hive_from(
            "one".to_string(),
            "d1".to_string(),
            "o1".to_string(),
            PathBuf::from("/base/one"),
            (2, 3),
            11,
            ids(&["a", "b", "c"]),
        )
        .unwrap();
    assert_eq!(first, "a");
    let second = manager
        .create_hive_from(
            "two".to_string(),
            "d2".to_string(),
            "o2".to_string(),
            PathBuf::from("/base/two"),
            (4, 5),
            12,
            ids(&["a", "a", "c", "b"]),
        )
        .unwrap();
    assert_eq!(second, "c");
    let made = manager.get_hive("c").unwrap();
    assert_eq!(made.name, "two");
    assert_eq!(made.description, "d2");
    assert_eq!(made.metadata.owner, "o2");
    assert_eq!(made.metadata.version, 1);
    assert_eq!(made.created_at, 12);
    assert_eq!(made.modified_at, 12);
    assert_eq!(made.storage_path, PathBuf::from("/base/two"));
    assert_eq!(made.cells.dimensions(), (4, 5));
    assert_eq!(made.cell_count(), 0);
    assert_eq!(
        manager.list_hives(),
        vec![("a".to_string(), "one".to_string()), ("c".to_string(), "two".to_string())]
    );
}

#[test]
fn no_free_id_is_an_error_and_changes_nothing() {
    let mut manager = HiveManager::new(PathBuf::from("/base"));
    let ids = |names: &[&str]| -> Vec<String> { names.iter().map(|n| n.to_string()).collect() };
    manager
        .create_hive_from(
            "one".to_string(),
            "".to_string(),
            "".to_string(),
            PathBuf::from("/base/one"),
            (1, 1),
            1,
            ids(&["a"]),
        )
        .unwrap();
    for drawn in [ids(&["a"]), ids(&["a", "a", "a"]), ids(&[])] {
        match manager.create_hive_from(
            "two".to_string(),
            "".to_string(),
            "".to_string(),
            PathBuf::from("/base/two"),
            (1, 1),
            2,
            drawn,
        ) {
            Err(HiveError::GenericError(_)) => {}
            other => panic!("expected an error for no free id, got {:?}", other),
        }
        assert_eq!(manager.list_hives(), vec![("a".to_string(), "one".to_string())]);
    }
}
