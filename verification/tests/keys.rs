use macos_input_monitor::commands::{decimal_string, DEFAULT_DISCOVERY_DURATION_MS};
use macos_input_monitor::constants::{
    CAPS_LOCK_FLAG, CMD_FLAG, CTRL_FLAG, KEY_F1, KEY_F12, KEY_F12_MEDIA, KEY_F1_MEDIA, KEY_F5,
    KEY_F5_MEDIA, NON_COALESCED_FLAG, NUM_PAD_FLAG, OPT_FLAG, SECONDARY_FN_FLAG, SHIFT_FLAG,
    USER_MODIFIER_MASK,
};
use macos_input_monitor::{
    discover_keycode, extract_user_modifiers, get_function_key_codes, get_keycode_table, Hotkey,
    Modifiers,
};

#[test]
fn function_key_codes_for_each_key() {
    assert_eq!(get_function_key_codes(1), vec![122, 145]);
    assert_eq!(get_function_key_codes(2), vec![120, 144]);
    assert_eq!(get_function_key_codes(3), vec![99, 160]);
    assert_eq!(get_function_key_codes(4), vec![118, 131]);
    assert_eq!(get_function_key_codes(5), vec![96, 176]);
    assert_eq!(get_function_key_codes(6), vec![97, 177]);
    assert_eq!(get_function_key_codes(7), vec![98, 180]);
    assert_eq!(get_function_key_codes(8), vec![100, 179]);
    assert_eq!(get_function_key_codes(9), vec![101, 178]);
    assert_eq!(get_function_key_codes(10), vec![109, 173]);
    assert_eq!(get_function_key_codes(11), vec![103, 174]);
    assert_eq!(get_function_key_codes(12), vec![111, 175]);
    assert_eq!(get_function_key_codes(5), vec![KEY_F5, KEY_F5_MEDIA]);
}

#[test]
fn function_key_codes_outside_range_are_empty() {
    assert!(get_function_key_codes(0).is_empty());
    assert!(get_function_key_codes(13).is_empty());
    assert!(get_function_key_codes(255).is_empty());
}

#[test]
fn function_key_codes_never_shared_between_keys() {
    let mut all: Vec<i64> = Vec::new();
    for n in 1..=12u8 {
        for c in get_function_key_codes(n) {
            assert!(!all.contains(&c));
            all.push(c);
        }
    }
    assert_eq!(all.len(), 24);
}

#[test]
fn extract_keeps_only_user_modifiers() {
    assert_eq!(extract_user_modifiers(0), 0);
    assert_eq!(extract_user_modifiers(CMD_FLAG | CAPS_LOCK_FLAG), CMD_FLAG);
    assert_eq!(
        extract_user_modifiers(
            SECONDARY_FN_FLAG | CAPS_LOCK_FLAG | NUM_PAD_FLAG | NON_COALESCED_FLAG
        ),
        0
    );
    assert_eq!(
        extract_user_modifiers(u64::MAX),
        CMD_FLAG | OPT_FLAG | CTRL_FLAG | SHIFT_FLAG
    );
    assert_eq!(extract_user_modifiers(0x0012_0108), 0x0012_0000);
    assert_eq!(USER_MODIFIER_MASK, CMD_FLAG | OPT_FLAG | CTRL_FLAG | SHIFT_FLAG);
}

#[test]
fn extract_is_idempotent() {
    for raw in [0u64, 0x100, 0x1e0000, 0xffff_ffff, u64::MAX, 0x0093_0100] {
        let once = extract_user_modifiers(raw);
        assert_eq!(extract_user_modifiers(once), once);
    }
}

#[test]
fn internal_flags_do_not_change_modifiers() {
    let raw = CMD_FLAG | SHIFT_FLAG;
    let noisy = raw | SECONDARY_FN_FLAG | CAPS_LOCK_FLAG | NUM_PAD_FLAG | NON_COALESCED_FLAG;
    assert_eq!(extract_user_modifiers(noisy), extract_user_modifiers(raw));
}

fn hotkey_with(modifiers: Modifiers) -> Hotkey {
    Hotkey {
        keycodes: vec![KEY_F1, KEY_F1_MEDIA],
        modifiers,
        consume: false,
        event_name: "f1".to_string(),
    }
}

#[test]
fn modifier_flags_of_each_modifier() {
    assert_eq!(hotkey_with(Modifiers::empty()).get_modifier_flags(), 0);
    assert_eq!(hotkey_with(Modifiers::command()).get_modifier_flags(), 0x100000);
    let all = Modifiers { command: true, option: true, control: true, shift: true };
    assert_eq!(hotkey_with(all).get_modifier_flags(), 0x1e0000);
    let opt_shift = Modifiers { command: false, option: true, control: false, shift: true };
    assert_eq!(hotkey_with(opt_shift).get_modifier_flags(), 0xa0000);
    let ctrl = Modifiers { command: false, option: false, control: true, shift: false };
    assert_eq!(hotkey_with(ctrl).get_modifier_flags(), CTRL_FLAG);
}

#[test]
fn modifier_flags_are_distinct_and_user_only() {
    let mut seen: Vec<u64> = Vec::new();
    for bits in 0u8..16 {
        let m = Modifiers {
            command: bits & 1 != 0,
            option: bits & 2 != 0,
            control: bits & 4 != 0,
            shift: bits & 8 != 0,
        };
        let flags = hotkey_with(m).get_modifier_flags();
        assert_eq!(extract_user_modifiers(flags), flags);
        assert!(!seen.contains(&flags));
        seen.push(flags);
    }
}

#[test]
fn modifiers_constructors() {
    let empty = Modifiers::empty();
    assert!(!empty.command && !empty.option && !empty.control && !empty.shift);
    assert_eq!(Modifiers::default(), empty);
    let cmd = Modifiers::command();
    assert!(cmd.command && !cmd.option && !cmd.control && !cmd.shift);
}

#[test]
fn keycode_table_lists_f1_to_f12() {
    let table = get_keycode_table();
    assert_eq!(table.len(), 12);
    assert_eq!(table[0].0, "F1");
    assert_eq!(table[0].1, vec![122, 145]);
    assert_eq!(table[4].0, "F5");
    assert_eq!(table[4].1, vec![96, 176]);
    assert_eq!(table[9].0, "F10");
    assert_eq!(table[9].1, vec![109, 173]);
    assert_eq!(table[11].0, "F12");
    assert_eq!(table[11].1, vec![KEY_F12, KEY_F12_MEDIA]);
    for (i, (name, codes)) in table.iter().enumerate() {
        assert_eq!(*name, format!("F{}", i + 1));
        assert_eq!(*codes, get_function_key_codes((i + 1) as u8));
    }
}

#[test]
fn discovery_text_with_default_duration() {
    assert_eq!(DEFAULT_DISCOVERY_DURATION_MS, 30000);
    assert_eq!(
        discover_keycode(None),
        "Keycode discovery: Press keys and check console logs. Duration: 30000ms"
    );
}

#[test]
fn discovery_text_with_given_duration() {
    assert_eq!(
        discover_keycode(Some(1500)),
        "Keycode discovery: Press keys and check console logs. Duration: 1500ms"
    );
    assert_eq!(
        discover_keycode(Some(0)),
        "Keycode discovery: Press keys and check console logs. Duration: 0ms"
    );
}

#[test]
fn decimal_text_of_numbers() {
    assert_eq!(decimal_string(0), "0");
    assert_eq!(decimal_string(7), "7");
    assert_eq!(decimal_string(10), "10");
    assert_eq!(decimal_string(12345), "12345");
    assert_eq!(decimal_string(u64::MAX), u64::MAX.to_string());
}
