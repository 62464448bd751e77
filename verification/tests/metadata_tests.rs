use orion_error::metadata::{ErrorMetadata, MetadataValue};

#[test]
fn test_metadata_insert_overwrites_duplicate_keys() {
    let mut metadata = ErrorMetadata::new();
    metadata.insert("config.kind", "sink_route");
    metadata.insert("config.kind", "sink_defaults");

    assert_eq!(metadata.get_str("config.kind"), Some("sink_defaults"));
}

#[test]
fn test_metadata_merge_missing_keeps_existing_values() {
    let mut merged = ErrorMetadata::new();
    merged.insert("config.kind", "sink_defaults");

    let mut outer = ErrorMetadata::new();
    outer.insert("config.kind", "sink_route");
    outer.insert("config.group", "infra");

    merged.merge_missing(&outer);

    assert_eq!(merged.get_str("config.kind"), Some("sink_defaults"));
    assert_eq!(merged.get_str("config.group"), Some("infra"));
}

#[test]
fn test_metadata_get_str_only_for_string_values() {
    let mut metadata = ErrorMetadata::new();
    metadata.insert("parse.line", 7u32);

    assert_eq!(metadata.get("parse.line"), Some(&MetadataValue::U64(7)));
    assert_eq!(metadata.get_str("parse.line"), None);
}
