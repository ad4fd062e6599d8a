use hivedb::clock::{now_seconds, seconds_from};
use hivedb::config::{new_config, Config};
use hivedb::error::HiveError;
use hivedb::{init, name, version};
use std::time::{Duration, UNIX_EPOCH};

#[test]
fn test_version() {
    assert!(!version().is_empty());
}

#[test]
fn test_name() {
    assert_eq!(
        name(),
        "HiveDB - نظام قواعد بيانات ثوري مستوحى من خلية النحل"
    );
}

#[test]
fn version_is_the_package_version() {
    assert_eq!(version(), "0.1.0");
}

#[test]
fn init_succeeds() {
    assert!(init().is_ok());
    assert!(hivedb::hive::init().is_ok());
}

#[test]
fn default_config() {
    let config = Config::default();
    assert_eq!(config.max_cells_per_hive, 10_000);
    assert_eq!(config.compression_level, 6);
    assert!(config.enable_swarm_optimization);
    assert_eq!(config.grid_dimensions, (64, 64));
}

#[test]
fn new_config_overrides_what_is_given() {
    let config = new_config(None, None, None, None);
    assert_eq!(config.max_cells_per_hive, 10_000);
    assert_eq!(config.compression_level, 6);
    assert!(config.enable_swarm_optimization);
    assert_eq!(config.grid_dimensions, (64, 64));

    let config = new_config(Some(5), Some(9), Some(false), Some((2, 3)));
    assert_eq!(config.max_cells_per_hive, 5);
    assert_eq!(config.compression_level, 9);
    assert!(!config.enable_swarm_optimization);
    assert_eq!(config.grid_dimensions, (2, 3));

    let config = new_config(Some(7), None, None, Some((1, 1)));
    assert_eq!(config.max_cells_per_hive, 7);
    assert_eq!(config.compression_level, 6);
    assert!(config.enable_swarm_optimization);
    assert_eq!(config.grid_dimensions, (1, 1));
}

#[test]
fn error_messages() {
    assert_eq!(
        HiveError::CellAlreadyExists.message(),
        "A cell already exists at the specified coordinates"
    );
    assert_eq!(HiveError::CellNotFound.message(), "Cell not found");
    assert_eq!(HiveError::HiveNotFound.message(), "Hive not found");
    assert_eq!(HiveError::OutOfBoundsError.message(), "Coordinates are out of bounds");
    assert_eq!(HiveError::LockError.message(), "Failed to acquire lock");
    assert_eq!(HiveError::ReferenceError.message(), "Reference counting error");
    assert_eq!(HiveError::SystemTimeError.message(), "System time error");
    assert_eq!(HiveError::CompressionError("x".to_string()).message(), "Compression error: x");
    assert_eq!(
        HiveError::DecompressionError("y".to_string()).message(),
        "Decompression error: y"
    );
    assert_eq!(HiveError::IoError("disk".to_string()).message(), "I/O error: disk");
    assert_eq!(
        HiveError::SerializationError("s".to_string()).message(),
        "Serialization error: s"
    );
    assert_eq!(
        HiveError::DeserializationError("d".to_string()).message(),
        "Deserialization error: d"
    );
    assert_eq!(
        HiveError::AuthenticationError("a".to_string()).message(),
        "Authentication error: a"
    );
    assert_eq!(
        HiveError::AuthorizationError("z".to_string()).message(),
        "Authorization error: z"
    );
    assert_eq!(
        HiveError::SchemaValidationError("v".to_string()).message(),
        "Schema validation error: v"
    );
    assert_eq!(HiveError::QueryError("q".to_string()).message(), "Query error: q");
    assert_eq!(HiveError::NetworkError("n".to_string()).message(), "Network error: n");
    assert_eq!(HiveError::NotImplemented.message(), "Feature not implemented");
    assert_eq!(HiveError::GenericError("".to_string()).message(), "Error: ");
}

#[test]
fn seconds_from_a_measurement() {
    match seconds_from(Ok(Duration::from_millis(5_999))) {
        Ok(seconds) => assert_eq!(seconds, 5),
        Err(e) => panic!("expected seconds, got {:?}", e),
    }
    // A reading before the start of Unix time cannot be measured from it.
    let later = UNIX_EPOCH + Duration::from_secs(10);
    match seconds_from(UNIX_EPOCH.duration_since(later)) {
        Err(HiveError::SystemTimeError) => {}
        other => panic!("expected a clock error, got {:?}", other),
    }
    assert!(now_seconds().unwrap() > 1_000_000_000);
}
