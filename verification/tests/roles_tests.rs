use interaction_core::error::HandlerError;
use interaction_core::roles::is_default_role;
use interaction_core::text::u64_to_string;

fn role_json(name: &str) -> String {
    format!(
        r#"{{"color":0,"hoist":false,"id":"1","managed":false,"mentionable":false,"name":"{}","permissions":"0","position":0,"flags":0}}"#,
        name
    )
}

#[test]
fn everyone_role_is_detected_by_name() {
    match is_default_role(&role_json("@everyone")) {
        Ok(b) => assert!(b),
        Err(_) => panic!("the role object should parse"),
    }
}

#[test]
fn ordinary_role_is_not_the_default() {
    match is_default_role(&role_json("Members")) {
        Ok(b) => assert!(!b),
        Err(_) => panic!("the role object should parse"),
    }
}

#[test]
fn malformed_role_json_is_a_handler_error() {
    match is_default_role(&"not json".to_string()) {
        Ok(_) => panic!("malformed JSON should not parse"),
        Err(err) => {
            let HandlerError::JsonFailed(_) = err;
            assert_eq!(
                err.message(),
                "Failed to deserialize from or serialize to JSON."
            );
        }
    }
}

#[test]
fn decimal_rendering_is_canonical() {
    assert_eq!(u64_to_string(0), "0");
    assert_eq!(u64_to_string(7), "7");
    assert_eq!(u64_to_string(42), "42");
    assert_eq!(u64_to_string(639078486434381835), "639078486434381835");
    assert_eq!(u64_to_string(u64::MAX), "18446744073709551615");
}
