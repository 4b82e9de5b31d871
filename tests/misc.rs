use signal_bridge::db_encryption::{generate_db_key, get_key_file_path, get_or_create_db_key};
use signal_bridge::error::{DbEncryptionError, SignalBridgeError};
use signal_bridge::identity::{generate_node_fingerprint, NodeIdentity};
use signal_bridge::message_history::{DeliveryStatus, MessageDirection, MessageType};
use signal_bridge::storage::ProtocolAddress;
use signal_bridge::{add_numbers, hello_world};

#[test]
fn test_hello_world() {
    let result = hello_world();
    assert_eq!(result, "Hello World from Rust via CXX bridge!");
}

#[test]
fn test_add_numbers() {
    assert_eq!(add_numbers(2, 3), 5);
    assert_eq!(add_numbers(-1, 1), 0);
}

#[test]
fn test_generate_node_fingerprint_known_input() {
    let identity = NodeIdentity {
        hostname: "test-host".to_string(),
        username: "test-user".to_string(),
        platform: "linux".to_string(),
        machine_id: "machine123".to_string(),
        mac_address: "00:11:22:33:44:55".to_string(),
        install_id: "install456".to_string(),
    };

    let fingerprint = generate_node_fingerprint(&identity);
    assert_eq!(
        fingerprint,
        "RDX:dae7dd5b261f004b5a5f08f9af5c468b5ef6d18a7ef9d066f5489341c4932348"
    );
}

#[test]
fn test_generate_node_fingerprint_empty_fields() {
    let identity = NodeIdentity {
        hostname: "".to_string(),
        username: "".to_string(),
        platform: "".to_string(),
        machine_id: "".to_string(),
        mac_address: "".to_string(),
        install_id: "".to_string(),
    };

    let fingerprint = generate_node_fingerprint(&identity);
    assert_eq!(
        fingerprint,
        "RDX:175568d645658bd89cd35d8f9857624b36b27bcb41163539ebe46ec49601217d"
    );
}

#[test]
fn test_generate_db_key_produces_32_bytes() {
    let key = generate_db_key();
    assert_eq!(key.len(), 32, "Key should be 32 bytes for AES-256");
}

#[test]
fn test_generate_db_key_produces_random_keys() {
    let key1 = generate_db_key();
    let key2 = generate_db_key();
    assert_ne!(key1, key2, "Two generated keys should be different");
}

#[test]
fn key_file_path_appends_suffix() {
    assert_eq!(get_key_file_path("data/alice.db"), "data/alice.db.key");
    assert_eq!(get_key_file_path(""), ".key");
}

#[test]
fn stored_db_key_is_reused() {
    let stored = [7u8; 32];
    let choice = get_or_create_db_key("alice.db", Some(stored));
    assert_eq!(choice.key, stored);
    assert!(!choice.store);
}

#[test]
fn missing_db_key_is_created_and_stored() {
    let choice = get_or_create_db_key("alice.db", None);
    assert!(choice.store);
    assert_eq!(choice.key.len(), 32);
}

#[test]
fn in_memory_db_key_is_not_stored() {
    let choice = get_or_create_db_key(":memory:", None);
    assert!(!choice.store);
}

#[test]
fn test_error_types_creation() {
    let storage_error = SignalBridgeError::Storage("Database connection failed".to_string());
    assert_eq!(
        storage_error.to_string(),
        "Storage error: Database connection failed"
    );

    let protocol_error = SignalBridgeError::Protocol("Invalid device ID".to_string());
    assert_eq!(
        protocol_error.to_string(),
        "Signal Protocol error: Invalid device ID"
    );

    let serialization_error = SignalBridgeError::Serialization("Invalid data format".to_string());
    assert_eq!(
        serialization_error.to_string(),
        "Serialization error: Invalid data format"
    );

    let invalid_input_error = SignalBridgeError::InvalidInput("Empty peer name".to_string());
    assert_eq!(
        invalid_input_error.to_string(),
        "Invalid input: Empty peer name"
    );

    let session_not_found_error = SignalBridgeError::SessionNotFound(
        "Establish a session with alice before sending messages".to_string(),
    );
    assert_eq!(
        session_not_found_error.to_string(),
        "Establish a session with alice before sending messages"
    );

    let schema_error = SignalBridgeError::SchemaVersionTooOld;
    assert_eq!(
        schema_error.to_string(),
        "Update your database to a newer schema version"
    );
}

#[test]
fn key_derivation_and_key_storage_error_texts() {
    let e = SignalBridgeError::KeyDerivation("HKDF expansion failed".to_string());
    assert_eq!(e.to_string(), "Key derivation error: HKDF expansion failed");
    let d = DbEncryptionError::KeyStorage("Failed to open key file".to_string());
    assert_eq!(d.to_string(), "Key storage error: Failed to open key file");
}

#[test]
fn stored_integers_map_to_history_enums() {
    assert_eq!(MessageDirection::from(0), MessageDirection::Incoming);
    assert_eq!(MessageDirection::from(1), MessageDirection::Outgoing);
    assert_eq!(MessageDirection::from(9), MessageDirection::Incoming);
    assert_eq!(MessageType::from(1), MessageType::BundleAnnouncement);
    assert_eq!(MessageType::from(2), MessageType::System);
    assert_eq!(MessageType::from(-4), MessageType::Text);
    assert_eq!(DeliveryStatus::from(2), DeliveryStatus::Delivered);
    assert_eq!(DeliveryStatus::from(3), DeliveryStatus::Failed);
    assert_eq!(DeliveryStatus::from(77), DeliveryStatus::Pending);
    assert_eq!(DeliveryStatus::Sent.to_i64(), 1);
    assert_eq!(MessageType::System.to_i64(), 2);
    assert_eq!(MessageDirection::Outgoing.to_i64(), 1);
}

#[test]
fn test_libsignal_basic_types() {
    let device_id = 1u32;
    let protocol_address = ProtocolAddress::new("test_device".to_string(), device_id);
    assert_eq!(protocol_address.name, "test_device");
    assert_eq!(protocol_address.device_id, device_id);
}
