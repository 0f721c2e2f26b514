use pax_manifest::patch::patch_if_needed;

#[test]
fn patch_writes_both_when_nothing_was_sent() {
    let mut old_state: Option<i64> = None;
    let mut patch: Option<i64> = None;
    assert!(patch_if_needed(&mut old_state, &mut patch, 7i64));
    assert_eq!(old_state, Some(7));
    assert_eq!(patch, Some(7));
}

#[test]
fn patch_skips_an_equal_value() {
    let mut old_state: Option<i64> = Some(7);
    let mut patch: Option<i64> = None;
    assert!(!patch_if_needed(&mut old_state, &mut patch, 7i64));
    assert_eq!(old_state, Some(7));
    assert_eq!(patch, None);
}

#[test]
fn patch_replaces_a_different_value() {
    let mut old_state: Option<i64> = Some(3);
    let mut patch: Option<i64> = Some(1);
    assert!(patch_if_needed(&mut old_state, &mut patch, 4i64));
    assert_eq!(old_state, Some(4));
    assert_eq!(patch, Some(4));
}

#[test]
fn patch_converts_into_the_state_type() {
    let mut old_state: Option<String> = Some("red".to_string());
    let mut patch: Option<String> = None;
    assert!(!patch_if_needed(&mut old_state, &mut patch, "red"));
    assert_eq!(patch, None);
    assert!(patch_if_needed(&mut old_state, &mut patch, "blue"));
    assert_eq!(old_state.as_deref(), Some("blue"));
    assert_eq!(patch.as_deref(), Some("blue"));
    assert!(!patch_if_needed(&mut old_state, &mut patch, "blue"));
}
