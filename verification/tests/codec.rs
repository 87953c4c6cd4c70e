use module_cache::{
    decode_artifact, encode_artifact, file_name_for_key, read_outcome, CacheError, DiskRead,
    Engine, Module,
};

#[test]
fn artifact_round_trip_same_engine() {
    let engine = Engine::new(42);
    let module = Module::new(42, vec![10, 20, 30]);
    let bytes = encode_artifact(&module);
    let decoded = decode_artifact(&bytes, &engine).unwrap();
    assert_eq!(decoded.config(), 42);
    assert_eq!(decoded.bytes(), &vec![10, 20, 30]);
}

#[test]
fn engine_mismatch_is_a_miss() {
    let stored_for = Engine::new(1);
    let asking = Engine::new(2);
    let module = Module::new(stored_for.config, vec![1, 2, 3]);
    let bytes = encode_artifact(&module);
    assert!(matches!(decode_artifact(&bytes, &asking), Err(CacheError::NotFound)));
}

#[test]
fn truncated_artifact_is_a_miss() {
    let engine = Engine::new(1);
    let bytes = vec![1, 0, 0];
    assert!(matches!(decode_artifact(&bytes, &engine), Err(CacheError::NotFound)));
}

#[test]
fn garbage_artifact_is_a_miss() {
    let engine = Engine::new(1);
    let bytes = vec![0xff, 0xee, 0xdd, 0xcc, 0xbb, 0xaa, 0x99, 0x88, 0x77];
    assert!(matches!(decode_artifact(&bytes, &engine), Err(CacheError::NotFound)));
}

#[test]
fn encoded_layout_is_marker_then_blob() {
    let module = Module::new(1, vec![9, 9]);
    assert_eq!(encode_artifact(&module), vec![1, 0, 0, 0, 0, 0, 0, 0, 9, 9]);
}

#[test]
fn missing_file_reads_as_not_found() {
    let engine = Engine::new(1);
    assert!(matches!(read_outcome(DiskRead::Missing, &engine), Err(CacheError::NotFound)));
}

#[test]
fn io_failure_reads_as_other() {
    let engine = Engine::new(1);
    let result = read_outcome(DiskRead::Failure("permission denied".to_string()), &engine);
    match result {
        Err(CacheError::Other(msg)) => assert_eq!(msg, "permission denied"),
        other => panic!("expected an infrastructure failure, got {:?}", other.err()),
    }
}

#[test]
fn content_reads_decode() {
    let engine = Engine::new(6);
    let module = Module::new(6, vec![5]);
    let bytes = encode_artifact(&module);
    let loaded = read_outcome(DiskRead::Content(bytes), &engine).unwrap();
    assert_eq!(loaded.bytes(), &vec![5]);
}

#[test]
fn file_names_are_deterministic_hex() {
    assert_eq!(file_name_for_key("a"), b"00000061".to_vec());
    assert_eq!(file_name_for_key("a"), file_name_for_key("a"));
    assert_ne!(file_name_for_key("a"), file_name_for_key("b"));
    // Keys that are not filesystem-safe still get safe names.
    let name = file_name_for_key("lib/../etc: *");
    assert!(name.iter().all(|b| b.is_ascii_hexdigit()));
}
