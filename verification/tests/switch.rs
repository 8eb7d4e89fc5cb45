use repo_settings_sync::models::de::optionally_enabled::{
    optionally_enabled, EntryValue, SwitchError, SwitchValue,
};

fn object(entries: &[(&str, EntryValue)]) -> SwitchValue {
    SwitchValue::Object(entries.iter().map(|(k, v)| (k.to_string(), *v)).collect())
}

#[test]
fn null_is_no_value() {
    assert_eq!(optionally_enabled(&SwitchValue::Null), Ok(None));
}

#[test]
fn bare_booleans() {
    assert_eq!(optionally_enabled(&SwitchValue::Bool(false)), Ok(Some(false)));
    assert_eq!(optionally_enabled(&SwitchValue::Bool(true)), Ok(Some(true)));
}

#[test]
fn object_with_enabled_key() {
    assert_eq!(optionally_enabled(&object(&[("enabled", EntryValue::Null)])), Ok(None));
    assert_eq!(
        optionally_enabled(&object(&[("enabled", EntryValue::Bool(false))])),
        Ok(Some(false))
    );
    assert_eq!(optionally_enabled(&object(&[("enabled", EntryValue::Bool(true))])), Ok(Some(true)));
}

#[test]
fn sibling_keys_are_ignored() {
    assert_eq!(
        optionally_enabled(&object(&[
            ("enabled", EntryValue::Bool(true)),
            ("foo", EntryValue::Other)
        ])),
        Ok(Some(true))
    );
    assert_eq!(
        optionally_enabled(&object(&[
            ("foo", EntryValue::Other),
            ("enabled", EntryValue::Bool(true))
        ])),
        Ok(Some(true))
    );
    assert_eq!(
        optionally_enabled(&object(&[("foo", EntryValue::Bool(false)), ("url", EntryValue::Null)])),
        Ok(None)
    );
}

#[test]
fn empty_object_is_no_value() {
    assert_eq!(optionally_enabled(&object(&[])), Ok(None));
}

#[test]
fn last_enabled_key_decides() {
    assert_eq!(
        optionally_enabled(&object(&[
            ("enabled", EntryValue::Bool(true)),
            ("enabled", EntryValue::Bool(false))
        ])),
        Ok(Some(false))
    );
}

#[test]
fn other_shapes_are_rejected() {
    assert_eq!(optionally_enabled(&SwitchValue::Other), Err(SwitchError::InvalidType));
    assert_eq!(
        optionally_enabled(&object(&[("enabled", EntryValue::Other)])),
        Err(SwitchError::InvalidEnabled)
    );
    assert_eq!(
        optionally_enabled(&object(&[
            ("enabled", EntryValue::Other),
            ("enabled", EntryValue::Bool(true))
        ])),
        Err(SwitchError::InvalidEnabled)
    );
}
