use hivedb::cell::{Cell, CellDataType, COMPRESSION_LEVEL};
use hivedb::error::HiveError;
use hivedb::geometry::Direction;

fn json_cell(id: &str, compress: bool) -> Cell {
    Cell::new(
        id.to_string(),
        (0, 0),
        CellDataType::Json,
        b"{\"test\": \"data\"}".to_vec(),
        compress,
    )
    .unwrap()
}

#[test]
fn test_cell_creation() {
    let cell = Cell::new(
        "test-cell-1".to_string(),
        (0, 0),
        CellDataType::Json,
        b"{\"test\": \"data\"}".to_vec(),
        true,
    )
    .unwrap();

    assert_eq!(cell.id, "test-cell-1");
    assert_eq!(cell.coordinates, (0, 0));
    assert_eq!(cell.data.data_type, CellDataType::Json);
    assert!(cell.data.is_compressed);
    assert_eq!(cell.metadata.version, 1);
    assert!(cell.neighbors.is_empty());
}

#[test]
fn test_cell_content() {
    let content = b"{\"test\": \"data\"}".to_vec();
    let cell = Cell::new(
        "test-cell-2".to_string(),
        (0, 0),
        CellDataType::Json,
        content.clone(),
        true,
    )
    .unwrap();

    // The content should be compressed
    assert!(cell.data.is_compressed);
    assert_ne!(cell.data.content, content);

    // But the content that was given comes back
    let decompressed = cell.get_content().unwrap();
    assert_eq!(decompressed, content);
}

#[test]
fn test_cell_update() {
    let mut cell = Cell::new(
        "test-cell-3".to_string(),
        (0, 0),
        CellDataType::Json,
        b"{\"test\": \"data\"}".to_vec(),
        false,
    )
    .unwrap();

    let new_content = b"{\"test\": \"updated\"}".to_vec();
    cell.update_content(new_content.clone(), false).unwrap();

    assert_eq!(cell.get_content().unwrap(), new_content);
    assert_eq!(cell.metadata.version, 2);
}

#[test]
fn test_cell_tags() {
    let mut cell = Cell::new(
        "test-cell-4".to_string(),
        (0, 0),
        CellDataType::Json,
        b"{\"test\": \"data\"}".to_vec(),
        false,
    )
    .unwrap();

    assert!(cell.metadata.tags.is_empty());

    cell.add_tag("important".to_string());
    cell.add_tag("test".to_string());

    assert_eq!(cell.metadata.tags.len(), 2);
    assert!(cell.metadata.tags.contains(&"important".to_string()));
    assert!(cell.metadata.tags.contains(&"test".to_string()));

    cell.remove_tag("important");

    assert_eq!(cell.metadata.tags.len(), 1);
    assert!(cell.metadata.tags.contains(&"test".to_string()));
}

#[test]
fn compression_level_is_six() {
    assert_eq!(COMPRESSION_LEVEL, 6);
}

#[test]
fn uncompressed_content_is_stored_verbatim() {
    let content = b"plain bytes".to_vec();
    let cell = Cell::new("c".to_string(), (1, 2), CellDataType::Binary, content.clone(), false)
        .unwrap();
    assert!(!cell.data.is_compressed);
    assert_eq!(cell.data.content, content);
    assert_eq!(cell.metadata.size_bytes, content.len());
    assert_eq!(cell.get_content().unwrap(), content);
    assert_eq!(cell.metadata.created_at, cell.metadata.modified_at);
}

#[test]
fn checksum_is_sha256_of_stored_bytes_in_hex() {
    // The SHA-256 digest of the three bytes "abc".
    let cell =
        Cell::new("c".to_string(), (0, 0), CellDataType::Binary, b"abc".to_vec(), false).unwrap();
    assert_eq!(
        cell.data.checksum,
        "ba7816bf8f01cfea414140de5dae2223b00361a396177a9cb410ff61f20015ad"
    );
    // The digest of no bytes at all.
    let empty =
        Cell::new("e".to_string(), (0, 0), CellDataType::Binary, Vec::new(), false).unwrap();
    assert_eq!(
        empty.data.checksum,
        "e3b0c44298fc1c149afbf4c8996fb92427ae41e4649b934ca495991b7852b855"
    );
}

#[test]
fn checksum_covers_the_compressed_bytes_not_the_content() {
    let content = vec![7u8; 4096];
    let compressed =
        Cell::new("a".to_string(), (0, 0), CellDataType::Binary, content.clone(), true).unwrap();
    let plain =
        Cell::new("b".to_string(), (0, 0), CellDataType::Binary, content.clone(), false).unwrap();
    assert_ne!(compressed.data.checksum, plain.data.checksum);
    assert_eq!(compressed.metadata.size_bytes, compressed.data.content.len());
    assert!(compressed.data.content.len() < content.len());
    // A cell that stores the compressed bytes as they are has the same checksum.
    let restored = Cell::new(
        "c".to_string(),
        (0, 0),
        CellDataType::Binary,
        compressed.data.content.clone(),
        false,
    )
    .unwrap();
    assert_eq!(restored.data.checksum, compressed.data.checksum);
}

#[test]
fn compressed_content_round_trips() {
    let payloads: Vec<Vec<u8>> = vec![
        Vec::new(),
        vec![0u8],
        b"hello hello hello hello hello hello".to_vec(),
        (0..=255u8).collect(),
        vec![42u8; 100_000],
    ];
    for payload in payloads {
        let cell =
            Cell::new("p".to_string(), (0, 0), CellDataType::Binary, payload.clone(), true)
                .unwrap();
        assert!(cell.data.is_compressed);
        assert_eq!(cell.get_content().unwrap(), payload);
    }
}

#[test]
fn compressed_frame_starts_with_lz4_magic() {
    let cell = json_cell("m", true);
    assert_eq!(&cell.data.content[..4], &[0x04, 0x22, 0x4d, 0x18]);
}

#[test]
fn corrupt_compressed_stream_fails_to_decompress() {
    let mut cell = json_cell("bad", false);
    cell.data.content = vec![0xff; 32];
    cell.data.is_compressed = true;
    match cell.get_content() {
        Err(HiveError::DecompressionError(_)) => {}
        other => panic!("expected a decompression error, got {:?}", other),
    }
}

#[test]
fn update_raises_version_by_one_each_time() {
    let mut cell = json_cell("v", false);
    let created = cell.metadata.created_at;
    for expected in 2..6u64 {
        let before = cell.metadata.modified_at;
        cell.update_content(vec![expected as u8; 10], expected % 2 == 0).unwrap();
        assert_eq!(cell.metadata.version, expected);
        assert!(cell.metadata.modified_at >= before);
        assert_eq!(cell.metadata.created_at, created);
        assert_eq!(cell.metadata.size_bytes, cell.data.content.len());
        assert_eq!(cell.data.is_compressed, expected % 2 == 0);
        assert_eq!(cell.get_content().unwrap(), vec![expected as u8; 10]);
    }
}

#[test]
fn replace_content_sets_time_and_checksum() {
    let mut cell =
        Cell::assemble("r".to_string(), (0, 0), CellDataType::Json, b"old".to_vec(), false, 1000);
    cell.replace_content(b"abc".to_vec(), false, 1234);
    assert_eq!(cell.metadata.modified_at, 1234);
    assert_eq!(cell.metadata.created_at, 1000);
    assert_eq!(cell.metadata.version, 2);
    assert_eq!(cell.metadata.size_bytes, 3);
    assert_eq!(
        cell.data.checksum,
        "ba7816bf8f01cfea414140de5dae2223b00361a396177a9cb410ff61f20015ad"
    );
}

#[test]
fn time_of_modification_never_drops() {
    let mut cell =
        Cell::assemble("r".to_string(), (0, 0), CellDataType::Json, b"old".to_vec(), false, 1000);
    // A clock that was set back leaves the time where it was.
    cell.replace_content(b"a".to_vec(), false, 999);
    assert_eq!(cell.metadata.modified_at, 1000);
    assert_eq!(cell.metadata.version, 2);
    cell.replace_content(b"b".to_vec(), false, 0);
    assert_eq!(cell.metadata.modified_at, 1000);
    assert_eq!(cell.metadata.version, 3);
    cell.replace_content(b"c".to_vec(), false, 1000);
    assert_eq!(cell.metadata.modified_at, 1000);
    cell.replace_content(b"d".to_vec(), false, 1001);
    assert_eq!(cell.metadata.modified_at, 1001);
    cell.replace_content(b"e".to_vec(), false, u64::MAX);
    assert_eq!(cell.metadata.modified_at, u64::MAX);
    assert_eq!(cell.metadata.created_at, 1000);
    assert_eq!(cell.metadata.version, 6);
    // A cell stamped in the far future keeps its stamp when the clock is read.
    let mut ahead = Cell::assemble(
        "f".to_string(),
        (0, 0),
        CellDataType::Json,
        b"old".to_vec(),
        false,
        u64::MAX - 1,
    );
    ahead.update_content(b"new".to_vec(), false).unwrap();
    assert_eq!(ahead.metadata.modified_at, u64::MAX - 1);
    assert_eq!(ahead.metadata.version, 2);
    assert_eq!(ahead.get_content().unwrap(), b"new".to_vec());
}

#[test]
fn assemble_builds_the_initial_cell() {
    let cell = Cell::assemble(
        "id".to_string(),
        (3, -4),
        CellDataType::KeyValue,
        b"abc".to_vec(),
        false,
        77,
    );
    assert_eq!(cell.id, "id");
    assert_eq!(cell.coordinates, (3, -4));
    assert_eq!(cell.data.data_type, CellDataType::KeyValue);
    assert_eq!(cell.metadata.created_at, 77);
    assert_eq!(cell.metadata.modified_at, 77);
    assert_eq!(cell.metadata.version, 1);
    assert_eq!(cell.metadata.size_bytes, 3);
    assert!(cell.metadata.tags.is_empty());
    assert!(cell.neighbors.is_empty());
}

#[test]
fn add_tag_twice_keeps_one() {
    let mut cell = json_cell("t", false);
    cell.add_tag("same".to_string());
    cell.add_tag("same".to_string());
    assert_eq!(cell.metadata.tags, vec!["same".to_string()]);
    assert!(cell.has_tag("same"));
    assert!(!cell.has_tag("other"));
}

#[test]
fn tags_keep_insertion_order_and_remove_is_exact() {
    let mut cell = json_cell("t", false);
    cell.add_tag("b".to_string());
    cell.add_tag("a".to_string());
    cell.add_tag("c".to_string());
    cell.add_tag("a".to_string());
    assert_eq!(cell.metadata.tags, vec!["b".to_string(), "a".to_string(), "c".to_string()]);
    cell.remove_tag("A");
    assert_eq!(cell.metadata.tags.len(), 3);
    cell.remove_tag("a");
    assert_eq!(cell.metadata.tags, vec!["b".to_string(), "c".to_string()]);
    cell.remove_tag("a");
    assert_eq!(cell.metadata.tags, vec!["b".to_string(), "c".to_string()]);
}

#[test]
fn remove_tag_deletes_every_match() {
    let mut cell = json_cell("t", false);
    cell.metadata.tags =
        vec!["x".to_string(), "y".to_string(), "x".to_string(), "z".to_string(), "x".to_string()];
    cell.remove_tag("x");
    assert_eq!(cell.metadata.tags, vec!["y".to_string(), "z".to_string()]);
}

#[test]
fn link_and_unlink_neighbor() {
    let mut cell = json_cell("l", false);
    cell.link_neighbor(Direction::East, "one".to_string());
    cell.link_neighbor(Direction::SouthWest, "two".to_string());
    assert_eq!(cell.neighbors.get(Direction::East), Some(&"one".to_string()));
    assert_eq!(cell.neighbors.get(Direction::SouthWest), Some(&"two".to_string()));
    assert_eq!(cell.neighbors.get(Direction::West), None);
    assert!(!cell.neighbors.is_empty());
    // Linking again overwrites.
    cell.link_neighbor(Direction::East, "three".to_string());
    assert_eq!(cell.neighbors.get(Direction::East), Some(&"three".to_string()));
    cell.unlink_neighbor(Direction::East);
    assert!(!cell.neighbors.contains_key(Direction::East));
    cell.unlink_neighbor(Direction::East);
    cell.unlink_neighbor(Direction::SouthWest);
    assert!(cell.neighbors.is_empty());
}

#[test]
fn clone_copies_every_part() {
    let mut cell = json_cell("orig", true);
    cell.add_tag("t".to_string());
    cell.link_neighbor(Direction::NorthEast, "n".to_string());
    let copy = cell.clone();
    assert_eq!(copy.id, cell.id);
    assert_eq!(copy.coordinates, cell.coordinates);
    assert_eq!(copy.data.content, cell.data.content);
    assert_eq!(copy.data.checksum, cell.data.checksum);
    assert_eq!(copy.data.is_compressed, cell.data.is_compressed);
    assert_eq!(copy.metadata.tags, cell.metadata.tags);
    assert_eq!(copy.metadata.version, cell.metadata.version);
    assert_eq!(copy.neighbors.get(Direction::NorthEast), Some(&"n".to_string()));
}

#[test]
fn cell_init_succeeds() {
    assert!(hivedb::cell::init().is_ok());
}

#[test]
fn cells_are_stamped_with_the_current_time() {
    let cell = json_cell("now", false);
    let now = std::time::SystemTime::now()
        .duration_since(std::time::UNIX_EPOCH)
        .unwrap()
        .as_secs();
    assert!(cell.metadata.created_at <= now);
    assert!(now - cell.metadata.created_at < 60);
}
