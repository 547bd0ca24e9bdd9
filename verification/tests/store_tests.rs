use interaction_core::store::ConfigStore;

#[test]
fn set_then_get_round_trip() {
    let mut store = ConfigStore::new();
    store.set_field(7, "logging:channel".to_string(), "42".to_string());
    assert_eq!(
        store.get_field(7, &"logging:channel".to_string()),
        Some("42".to_string())
    );
    assert!(store.field_exists(7, &"logging:channel".to_string()));
}

#[test]
fn overwrite_replaces_value() {
    let mut store = ConfigStore::new();
    store.set_field(7, "verification:type".to_string(), "Captcha".to_string());
    store.set_field(7, "verification:type".to_string(), "Audio".to_string());
    assert_eq!(
        store.get_field(7, &"verification:type".to_string()),
        Some("Audio".to_string())
    );
}

#[test]
fn delete_then_get_is_absent() {
    let mut store = ConfigStore::new();
    store.set_field(7, "verification:role".to_string(), "9".to_string());
    store.delete_field(7, &"verification:role".to_string());
    assert_eq!(store.get_field(7, &"verification:role".to_string()), None);
    assert!(!store.field_exists(7, &"verification:role".to_string()));
}

#[test]
fn delete_of_absent_field_is_a_no_op() {
    let mut store = ConfigStore::new();
    store.set_field(7, "a".to_string(), "1".to_string());
    store.delete_field(7, &"b".to_string());
    assert_eq!(store.get_field(7, &"a".to_string()), Some("1".to_string()));
}

#[test]
fn distinct_guilds_never_interact() {
    let mut store = ConfigStore::new();
    store.set_field(1, "logging:channel".to_string(), "10".to_string());
    store.set_field(2, "logging:channel".to_string(), "20".to_string());
    assert_eq!(
        store.get_field(1, &"logging:channel".to_string()),
        Some("10".to_string())
    );
    assert_eq!(
        store.get_field(2, &"logging:channel".to_string()),
        Some("20".to_string())
    );
    store.delete_field(1, &"logging:channel".to_string());
    assert_eq!(store.get_field(1, &"logging:channel".to_string()), None);
    assert_eq!(
        store.get_field(2, &"logging:channel".to_string()),
        Some("20".to_string())
    );
}

#[test]
fn absent_field_is_none_not_an_error() {
    let store = ConfigStore::new();
    assert_eq!(store.get_field(99, &"anything".to_string()), None);
}

#[test]
fn fingerprint_slot_round_trip() {
    let mut store = ConfigStore::new();
    assert_eq!(store.get_fingerprint(), None);
    store.set_fingerprint("abc".to_string());
    assert_eq!(store.get_fingerprint(), Some("abc".to_string()));
    // The fingerprint slot is not a guild field.
    assert_eq!(store.get_field(0, &"commands".to_string()), None);
}
