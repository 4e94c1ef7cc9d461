use macos_input_monitor::constants::{
    CAPS_LOCK_FLAG, CG_EVENT_FLAGS_CHANGED, CG_EVENT_KEY_DOWN, CG_EVENT_KEY_UP, CMD_FLAG,
    KEY_F5, KEY_F5_MEDIA, NON_COALESCED_FLAG, NUM_PAD_FLAG, SECONDARY_FN_FLAG, SHIFT_FLAG,
};
use macos_input_monitor::{
    Error, EventTap, Hotkey, HotkeyId, HotkeyManager, KeypressEvent, Modifiers,
};

fn f5(consume: bool, name: &str) -> Hotkey {
    Hotkey {
        keycodes: vec![KEY_F5, KEY_F5_MEDIA],
        modifiers: Modifiers::empty(),
        consume,
        event_name: name.to_string(),
    }
}

fn is_uuid_v4_text(s: &str) -> bool {
    let chars: Vec<char> = s.chars().collect();
    if chars.len() != 36 {
        return false;
    }
    for (i, c) in chars.iter().enumerate() {
        if i == 8 || i == 13 || i == 18 || i == 23 {
            if *c != '-' {
                return false;
            }
        } else if !(c.is_ascii_digit() || ('a'..='f').contains(c)) {
            return false;
        }
    }
    chars[14] == '4' && "89ab".contains(chars[19])
}

#[test]
fn hotkey_ids_are_random_uuids() {
    let a = HotkeyId::new();
    let b = HotkeyId::new();
    assert!(is_uuid_v4_text(&a.0));
    assert!(is_uuid_v4_text(&b.0));
    assert_ne!(a, b);
}

#[test]
fn register_then_registered() {
    let mut tap = EventTap::new();
    let id = tap.register(f5(true, "f5-pressed")).unwrap();
    assert!(is_uuid_v4_text(&id.0));
    assert!(tap.is_registered(&id));
    assert!(!tap.is_registered(&HotkeyId("not-an-id".to_string())));
}

#[test]
fn unregister_removes_only_that_hotkey() {
    let mut tap = EventTap::new();
    let a = tap.register(f5(true, "a")).unwrap();
    let b = tap.register(f5(false, "b")).unwrap();
    assert_eq!(tap.unregister(&a), Ok(()));
    assert!(!tap.is_registered(&a));
    assert!(tap.is_registered(&b));
}

#[test]
fn unregister_unknown_is_not_found() {
    let mut tap = EventTap::new();
    let id = HotkeyId("00000000-0000-4000-8000-000000000000".to_string());
    assert_eq!(tap.unregister(&id), Err(Error::HotkeyNotFound));
    let real = tap.register(f5(true, "x")).unwrap();
    assert_eq!(tap.unregister(&real), Ok(()));
    assert_eq!(tap.unregister(&real), Err(Error::HotkeyNotFound));
}

#[test]
fn consuming_hotkey_consumes_both_keycode_modes() {
    let mut tap = EventTap::new();
    tap.register(f5(true, "f5-pressed")).unwrap();
    for code in [KEY_F5, KEY_F5_MEDIA] {
        let d = tap.handle_key_event(CG_EVENT_KEY_DOWN, code, 0);
        assert!(d.consume);
        assert_eq!(d.emitted, vec!["f5-pressed".to_string()]);
        assert_eq!(
            d.event,
            KeypressEvent { keycode: code, raw_flags: 0, user_modifiers: 0 }
        );
    }
}

#[test]
fn internal_flags_do_not_stop_a_match() {
    let mut tap = EventTap::new();
    tap.register(f5(true, "f5-pressed")).unwrap();
    let raw = SECONDARY_FN_FLAG | CAPS_LOCK_FLAG | NUM_PAD_FLAG | NON_COALESCED_FLAG;
    let d = tap.handle_key_event(CG_EVENT_KEY_DOWN, KEY_F5_MEDIA, raw);
    assert!(d.consume);
    assert_eq!(d.emitted, vec!["f5-pressed".to_string()]);
    assert_eq!(d.event.raw_flags, raw);
    assert_eq!(d.event.user_modifiers, 0);
}

#[test]
fn extra_modifier_prevents_match() {
    let mut tap = EventTap::new();
    tap.register(f5(true, "f5-pressed")).unwrap();
    let d = tap.handle_key_event(CG_EVENT_KEY_DOWN, KEY_F5, CMD_FLAG);
    assert!(!d.consume);
    assert!(d.emitted.is_empty());
    assert_eq!(d.event.user_modifiers, CMD_FLAG);
}

#[test]
fn required_modifiers_must_match_exactly() {
    let mut tap = EventTap::new();
    let hk = Hotkey {
        keycodes: vec![KEY_F5],
        modifiers: Modifiers::command(),
        consume: true,
        event_name: "cmd-f5".to_string(),
    };
    tap.register(hk).unwrap();
    assert!(!tap.handle_key_event(CG_EVENT_KEY_DOWN, KEY_F5, 0).consume);
    assert!(!tap.handle_key_event(CG_EVENT_KEY_DOWN, KEY_F5, CMD_FLAG | SHIFT_FLAG).consume);
    let d = tap.handle_key_event(CG_EVENT_KEY_DOWN, KEY_F5, CMD_FLAG | CAPS_LOCK_FLAG);
    assert!(d.consume);
    assert_eq!(d.emitted, vec!["cmd-f5".to_string()]);
}

#[test]
fn other_event_types_pass_through() {
    let mut tap = EventTap::new();
    tap.register(f5(true, "f5-pressed")).unwrap();
    for ty in [CG_EVENT_KEY_UP, CG_EVENT_FLAGS_CHANGED, 0] {
        let d = tap.handle_key_event(ty, KEY_F5, 0);
        assert!(!d.consume);
        assert!(d.emitted.is_empty());
    }
}

#[test]
fn unknown_key_passes_through() {
    let mut tap = EventTap::new();
    tap.register(f5(true, "f5-pressed")).unwrap();
    let d = tap.handle_key_event(CG_EVENT_KEY_DOWN, 0, 0);
    assert!(!d.consume);
    assert!(d.emitted.is_empty());
}

#[test]
fn passthrough_hotkey_emits_without_consuming() {
    let mut tap = EventTap::new();
    tap.register(f5(false, "observe")).unwrap();
    let d = tap.handle_key_event(CG_EVENT_KEY_DOWN, KEY_F5, 0);
    assert!(!d.consume);
    assert_eq!(d.emitted, vec!["observe".to_string()]);
}

#[test]
fn every_match_emits_until_one_consumes() {
    let mut tap = EventTap::new();
    tap.register(f5(false, "first")).unwrap();
    tap.register(f5(true, "second")).unwrap();
    tap.register(f5(false, "third")).unwrap();
    let d = tap.handle_key_event(CG_EVENT_KEY_DOWN, KEY_F5, 0);
    assert!(d.consume);
    assert_eq!(d.emitted, vec!["first".to_string(), "second".to_string()]);
}

#[test]
fn unregistered_hotkey_no_longer_fires() {
    let mut tap = EventTap::new();
    let id = tap.register(f5(true, "f5-pressed")).unwrap();
    tap.unregister(&id).unwrap();
    let d = tap.handle_key_event(CG_EVENT_KEY_DOWN, KEY_F5, 0);
    assert!(!d.consume);
    assert!(d.emitted.is_empty());
}

#[test]
fn manager_register_unregister_round_trip() {
    let mut manager = HotkeyManager::new();
    let id = manager.register(f5(true, "f5-pressed")).unwrap();
    assert!(manager.is_registered(&id));
    assert!(manager.handle_key_event(CG_EVENT_KEY_DOWN, KEY_F5_MEDIA, 0).consume);
    manager.cleanup();
    assert!(manager.is_registered(&id));
    assert_eq!(manager.unregister(&id), Ok(()));
    assert!(!manager.is_registered(&id));
    assert_eq!(manager.unregister(&id), Err(Error::HotkeyNotFound));
    assert!(!manager.handle_key_event(CG_EVENT_KEY_DOWN, KEY_F5_MEDIA, 0).consume);
}

#[test]
fn registration_follows_the_history_of_calls() {
    let mut manager = HotkeyManager::new();
    let a = manager.register(f5(true, "a")).unwrap();
    let b = manager.register(f5(false, "b")).unwrap();
    assert_eq!(manager.unregister(&a), Ok(()));
    manager.cleanup();
    assert_eq!(manager.unregister(&a), Err(Error::HotkeyNotFound));
    let c = manager.register(f5(true, "c")).unwrap();
    assert!(!manager.is_registered(&a));
    assert!(manager.is_registered(&b));
    assert!(manager.is_registered(&c));
    assert_eq!(manager.unregister(&b), Ok(()));
    assert!(!manager.is_registered(&b));
    assert!(manager.is_registered(&c));
}
