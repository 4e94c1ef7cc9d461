//! macOS virtual key codes and modifier flag bit masks.
//!
//! macOS has two modes for function keys, which give different key codes:
//! in standard function-key mode F5 is 96, in media-key mode (the default on
//! MacBooks) F5 is 176.
use vstd::prelude::*;

verus! {

/// F1 keycode in standard function keys mode
pub const KEY_F1: i64 = 122;
/// F2 keycode in standard function keys mode
pub const KEY_F2: i64 = 120;
/// F3 keycode in standard function keys mode
pub const KEY_F3: i64 = 99;
/// F4 keycode in standard function keys mode
pub const KEY_F4: i64 = 118;
/// F5 keycode in standard function keys mode
pub const KEY_F5: i64 = 96;
/// F6 keycode in standard function keys mode
pub const KEY_F6: i64 = 97;
/// F7 keycode in standard function keys mode
pub const KEY_F7: i64 = 98;
/// F8 keycode in standard function keys mode
pub const KEY_F8: i64 = 100;
/// F9 keycode in standard function keys mode
pub const KEY_F9: i64 = 101;
/// F10 keycode in standard function keys mode
pub const KEY_F10: i64 = 109;
/// F11 keycode in standard function keys mode
pub const KEY_F11: i64 = 103;
/// F12 keycode in standard function keys mode
pub const KEY_F12: i64 = 111;

/// F1 keycode in media keys mode (brightness down)
pub const KEY_F1_MEDIA: i64 = 145;
/// F2 keycode in media keys mode (brightness up)
pub const KEY_F2_MEDIA: i64 = 144;
/// F3 keycode in media keys mode (Mission Control)
pub const KEY_F3_MEDIA: i64 = 160;
/// F4 keycode in media keys mode (Launchpad)
pub const KEY_F4_MEDIA: i64 = 131;
/// F5 keycode in media keys mode (keyboard brightness down)
pub const KEY_F5_MEDIA: i64 = 176;
/// F6 keycode in media keys mode (keyboard brightness up)
pub const KEY_F6_MEDIA: i64 = 177;
/// F7 keycode in media keys mode (rewind)
pub const KEY_F7_MEDIA: i64 = 180;
/// F8 keycode in media keys mode (play/pause)
pub const KEY_F8_MEDIA: i64 = 179;
/// F9 keycode in media keys mode (fast forward)
pub const KEY_F9_MEDIA: i64 = 178;
/// F10 keycode in media keys mode (mute)
pub const KEY_F10_MEDIA: i64 = 173;
/// F11 keycode in media keys mode (volume down)
pub const KEY_F11_MEDIA: i64 = 174;
/// F12 keycode in media keys mode (volume up)
pub const KEY_F12_MEDIA: i64 = 175;

/// Command key bit in the event flags
pub const CMD_FLAG: u64 = 0x100000;
/// Option (Alt) key bit in the event flags
pub const OPT_FLAG: u64 = 0x80000;
/// Control key bit in the event flags
pub const CTRL_FLAG: u64 = 0x40000;
/// Shift key bit in the event flags
pub const SHIFT_FLAG: u64 = 0x20000;

/// Fn key indicator; ignored when matching hotkeys
pub const SECONDARY_FN_FLAG: u64 = 0x800000;
/// Caps Lock; ignored when matching hotkeys
pub const CAPS_LOCK_FLAG: u64 = 0x10000;
/// Numeric keypad; ignored when matching hotkeys
pub const NUM_PAD_FLAG: u64 = 0x200000;
/// Internal event flag; ignored when matching hotkeys
pub const NON_COALESCED_FLAG: u64 = 0x100;

/// The four modifier bits a user presses on purpose: command, option,
/// control and shift.
pub const USER_MODIFIER_MASK: u64 = 0x1e0000;

/// CGEventTap location: the HID event tap
pub const CG_HID_EVENT_TAP: u32 = 0;
/// CGEventTap placement: insert at the head of the chain
pub const CG_HEAD_INSERT_EVENT_TAP: u32 = 0;
/// CGEventTap options: the default, active tap
pub const CG_EVENT_TAP_OPTION_DEFAULT: u32 = 0;
/// Event type of a key press
pub const CG_EVENT_KEY_DOWN: u32 = 10;
/// Event type of a key release
pub const CG_EVENT_KEY_UP: u32 = 11;
/// Event type of a modifier change
pub const CG_EVENT_FLAGS_CHANGED: u32 = 12;
/// Event field that holds the virtual keycode
pub const CG_KEYBOARD_EVENT_KEYCODE: u32 = 9;

/// The standard and the media keycode of function key `Fn`, in that order,
/// for `n` from 1 to 12; no keycode for any other `n`.
pub open spec fn function_key_codes(n: u8) -> Seq<i64> {
    if n == 1 {
        seq![KEY_F1, KEY_F1_MEDIA]
    } else if n == 2 {
        seq![KEY_F2, KEY_F2_MEDIA]
    } else if n == 3 {
        seq![KEY_F3, KEY_F3_MEDIA]
    } else if n == 4 {
        seq![KEY_F4, KEY_F4_MEDIA]
    } else if n == 5 {
        seq![KEY_F5, KEY_F5_MEDIA]
    } else if n == 6 {
        seq![KEY_F6, KEY_F6_MEDIA]
    } else if n == 7 {
        seq![KEY_F7, KEY_F7_MEDIA]
    } else if n == 8 {
        seq![KEY_F8, KEY_F8_MEDIA]
    } else if n == 9 {
        seq![KEY_F9, KEY_F9_MEDIA]
    } else if n == 10 {
        seq![KEY_F10, KEY_F10_MEDIA]
    } else if n == 11 {
        seq![KEY_F11, KEY_F11_MEDIA]
    } else if n == 12 {
        seq![KEY_F12, KEY_F12_MEDIA]
    } else {
        Seq::empty()
    }
}

/// Both keycodes of a function key: `[standard, media]` for keys 1 to 12,
/// empty for any other number.
pub fn get_function_key_codes(key_number: u8) -> (codes: Vec<i64>)
    ensures
        codes@ == function_key_codes(key_number),
{
    match key_number {
        1 => vec![KEY_F1, KEY_F1_MEDIA],
        2 => vec![KEY_F2, KEY_F2_MEDIA],
        3 => vec![KEY_F3, KEY_F3_MEDIA],
        4 => vec![KEY_F4, KEY_F4_MEDIA],
        5 => vec![KEY_F5, KEY_F5_MEDIA],
        6 => vec![KEY_F6, KEY_F6_MEDIA],
        7 => vec![KEY_F7, KEY_F7_MEDIA],
        8 => vec![KEY_F8, KEY_F8_MEDIA],
        9 => vec![KEY_F9, KEY_F9_MEDIA],
        10 => vec![KEY_F10, KEY_F10_MEDIA],
        11 => vec![KEY_F11, KEY_F11_MEDIA],
        12 => vec![KEY_F12, KEY_F12_MEDIA],
        _ => vec![],
    }
}

/// The user-intentional modifiers in raw event flags: the command, option,
/// control and shift bits, with every other bit cleared.
pub open spec fn user_modifiers(raw_flags: u64) -> u64 {
    raw_flags & USER_MODIFIER_MASK
}

/// Extract only user-intentional modifiers from raw event flags.
pub fn extract_user_modifiers(raw_flags: u64) -> (modifiers: u64)
    ensures
        modifiers == user_modifiers(raw_flags),
        modifiers & !USER_MODIFIER_MASK == 0,
        modifiers & CMD_FLAG == raw_flags & CMD_FLAG,
        modifiers & OPT_FLAG == raw_flags & OPT_FLAG,
        modifiers & CTRL_FLAG == raw_flags & CTRL_FLAG,
        modifiers & SHIFT_FLAG == raw_flags & SHIFT_FLAG,
{
    let modifiers = raw_flags & (CMD_FLAG | OPT_FLAG | CTRL_FLAG | SHIFT_FLAG);
    assert(modifiers == raw_flags & 0x1e0000u64 && modifiers & !0x1e0000u64 == 0
        && modifiers & 0x100000u64 == raw_flags & 0x100000u64
        && modifiers & 0x80000u64 == raw_flags & 0x80000u64
        && modifiers & 0x40000u64 == raw_flags & 0x40000u64
        && modifiers & 0x20000u64 == raw_flags & 0x20000u64) by (bit_vector)
        requires
            modifiers == raw_flags & (0x100000u64 | 0x80000u64 | 0x40000u64 | 0x20000u64),
    ;
    modifiers
}

/// Extracting the user-intentional modifiers twice gives what extracting
/// them once gives.
pub proof fn law_user_modifiers_idempotent(raw_flags: u64)
    ensures
        user_modifiers(user_modifiers(raw_flags)) == user_modifiers(raw_flags),
{
    assert((raw_flags & 0x1e0000u64) & 0x1e0000u64 == raw_flags & 0x1e0000u64) by (bit_vector);
}

/// Internal macOS flags (fn, caps lock, numeric keypad, non-coalesced), and
/// any other bit outside command, option, control and shift, never change
/// the user-intentional modifiers.
pub proof fn law_internal_flags_stripped(raw_flags: u64, extra_flags: u64)
    requires
        extra_flags & USER_MODIFIER_MASK == 0,
    ensures
        user_modifiers(raw_flags | extra_flags) == user_modifiers(raw_flags),
        user_modifiers(SECONDARY_FN_FLAG | CAPS_LOCK_FLAG | NUM_PAD_FLAG | NON_COALESCED_FLAG) == 0,
{
    assert((raw_flags | extra_flags) & 0x1e0000u64 == raw_flags & 0x1e0000u64) by (bit_vector)
        requires
            extra_flags & 0x1e0000u64 == 0,
    ;
    assert((0x800000u64 | 0x10000u64 | 0x200000u64 | 0x100u64) & 0x1e0000u64 == 0) by (bit_vector);
}

/// Function keys F1 to F12 have two keycodes each, a standard one and a
/// media one, and no keycode belongs to two different function keys; every
/// other key number has none.
pub proof fn law_function_key_codes(a: u8, b: u8)
    ensures
        1 <= a <= 12 ==> function_key_codes(a).len() == 2,
        !(1 <= a <= 12) ==> function_key_codes(a).len() == 0,
        1 <= a <= 12 && 1 <= b <= 12 && a != b ==> forall|i: int, j: int|
            0 <= i < 2 && 0 <= j < 2 ==> #[trigger] function_key_codes(a)[i]
                != #[trigger] function_key_codes(b)[j],
{
}

} // verus!
