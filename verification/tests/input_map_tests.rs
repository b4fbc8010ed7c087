use wavry_core::input_map::InputMap;

#[test]
fn passthrough_when_empty() {
    let mut map = InputMap::new("empty");
    assert!(map.is_empty());
    map.remap_key(1, Some(1));
    assert!(!map.is_empty());
}

#[test]
fn key_remap_applies() {
    let mut map = InputMap::new("test");
    map.remap_key(29, Some(56));
    assert_eq!(map.resolve_key(29), Some(56));
    assert_eq!(map.resolve_key(30), Some(30));
}

#[test]
fn key_block_works() {
    let mut map = InputMap::new("test");
    map.remap_key(125, None);
    assert_eq!(map.resolve_key(125), None);
    assert_eq!(map.resolve_key(1), Some(1));
}

#[test]
fn gamepad_buttons_remapped_and_blocked() {
    let mut map = InputMap::new("gamepad");
    map.remap_button(0, Some(1));
    map.remap_button(2, None);
    let mapped = map.map_gamepad_buttons(&[(0, true), (1, true), (2, true)]);
    assert_eq!(mapped, vec![(1, true), (1, true)]);
    assert_eq!(map.resolve_button(2), None);
    assert_eq!(map.resolve_button(7), Some(7));
}

#[test]
fn remap_replaces_earlier_rule() {
    let mut map = InputMap::new("swap-ctrl-alt");
    map.remap_key(29, Some(56));
    map.remap_key(56, Some(29));
    map.remap_key(29, None);
    assert_eq!(map.resolve_key(29), None);
    assert_eq!(map.resolve_key(56), Some(29));
    assert_eq!(map.name, "swap-ctrl-alt");
}

#[test]
fn last_button_rule_wins_and_keys_do_not_touch_buttons() {
    let mut m = InputMap::new("pad");
    m.remap_button(1, Some(2));
    m.remap_key(1, None);
    m.remap_button(1, None);
    m.remap_button(3, Some(4));
    m.remap_button(1, Some(5));
    assert_eq!(m.resolve_button(1), Some(5));
    assert_eq!(m.resolve_button(3), Some(4));
    assert_eq!(m.resolve_button(7), Some(7));
    assert_eq!(m.resolve_key(1), None);
}
