//! Data shared between the registry, the event decisions and the host
//! application: hotkey identifiers, modifier choices, hotkey definitions and
//! the payload of a triggered hotkey.
use vstd::prelude::*;

use crate::constants::{CMD_FLAG, CTRL_FLAG, OPT_FLAG, SHIFT_FLAG};

verus! {

/// A lowercase hexadecimal digit, as `Uuid`'s text form writes one.
pub open spec fn is_lower_hex_digit(c: char) -> bool {
    ('0' <= c && c <= '9') || ('a' <= c && c <= 'f')
}

/// The hyphenated text form of a random (version 4, RFC 4122 variant) UUID:
/// 36 characters, hyphens at 8, 13, 18 and 23, lowercase hex digits
/// elsewhere, the version digit `4` at 14 and one of `8`, `9`, `a`, `b` at 19.
pub open spec fn is_uuid_v4_text(s: Seq<char>) -> bool {
    &&& s.len() == 36
    &&& forall|i: int|
        0 <= i < 36 ==> (if i == 8 || i == 13 || i == 18 || i == 23 {
            s[i] == '-'
        } else {
            is_lower_hex_digit(#[trigger] s[i])
        })
    &&& s[14] == '4'
    &&& (s[19] == '8' || s[19] == '9' || s[19] == 'a' || s[19] == 'b')
}

/// The lowercase hexadecimal digit for `d` in 0..16.
pub open spec fn hex_char(d: int) -> char {
    if d < 10 {
        crate::commands::digit_char(d)
    } else if d == 10 {
        'a'
    } else if d == 11 {
        'b'
    } else if d == 12 {
        'c'
    } else if d == 13 {
        'd'
    } else if d == 14 {
        'e'
    } else {
        'f'
    }
}

/// The last `w` hexadecimal digits of `k`, most significant first.
pub open spec fn hex_text(k: nat, w: nat) -> Seq<char>
    decreases w,
{
    if w == 0 {
        Seq::empty()
    } else {
        hex_text(k / 16, (w - 1) as nat).push(hex_char((k % 16) as int))
    }
}

/// Sixteen to the power `w`.
pub open spec fn pow16(w: nat) -> nat
    decreases w,
{
    if w == 0 {
        1
    } else {
        16 * pow16((w - 1) as nat)
    }
}

/// An identifier text in UUID version 4 form that holds `k` in its first
/// eight and last eight hexadecimal digits and zeros elsewhere.
pub open spec fn numbered_uuid_text(k: nat) -> Seq<char> {
    hex_text(k / 0x1_0000_0000, 8) + "-0000-4000-8000-0000"@ + hex_text(k % 0x1_0000_0000, 8)
}

proof fn lemma_hex_char(d: int)
    requires
        0 <= d < 16,
    ensures
        is_lower_hex_digit(hex_char(d)),
        forall|e: int| 0 <= e < 16 && e != d ==> hex_char(e) != hex_char(d),
{
}

/// Fixed-width hex text has that width, holds only hex digits, and tells
/// numbers below `16^w` apart.
proof fn lemma_hex_text(a: nat, b: nat, w: nat)
    ensures
        hex_text(a, w).len() == w,
        forall|i: int| 0 <= i < w ==> is_lower_hex_digit(#[trigger] hex_text(a, w)[i]),
        a < pow16(w) && b < pow16(w) && hex_text(a, w) == hex_text(b, w) ==> a == b,
    decreases w,
{
    if w > 0 {
        let w1 = (w - 1) as nat;
        lemma_hex_text(a / 16, b / 16, w1);
        lemma_hex_char((a % 16) as int);
        lemma_hex_char((b % 16) as int);
        let ta = hex_text(a, w);
        assert forall|i: int| 0 <= i < w implies is_lower_hex_digit(#[trigger] ta[i]) by {
            if i < w1 {
                assert(ta[i] == hex_text(a / 16, w1)[i]);
            }
        }
        if a < pow16(w) && b < pow16(w) && hex_text(a, w) == hex_text(b, w) {
            let tb = hex_text(b, w);
            assert(ta.last() == tb.last());
            assert(ta.drop_last() =~= hex_text(a / 16, w1));
            assert(tb.drop_last() =~= hex_text(b / 16, w1));
            assert(a % 16 == b % 16);
            assert(a / 16 < pow16(w1));
            assert(b / 16 < pow16(w1));
            assert(a / 16 == b / 16);
        }
    }
}

/// Numbered identifier texts are in UUID version 4 form, and different
/// numbers below `2^64` give different texts.
pub proof fn lemma_numbered_uuid_text(a: nat, b: nat)
    ensures
        is_uuid_v4_text(numbered_uuid_text(a)),
        a < 0x1_0000_0000_0000_0000 && b < 0x1_0000_0000_0000_0000 && a != b ==> numbered_uuid_text(
            a,
        ) != numbered_uuid_text(b),
{
    reveal_strlit("-0000-4000-8000-0000");
    assert(pow16(8) == 0x1_0000_0000) by {
        reveal_with_fuel(pow16, 9);
    }
    lemma_hex_text(a / 0x1_0000_0000, b / 0x1_0000_0000, 8);
    lemma_hex_text(a % 0x1_0000_0000, b % 0x1_0000_0000, 8);
    let hi = hex_text(a / 0x1_0000_0000, 8);
    let lo = hex_text(a % 0x1_0000_0000, 8);
    let mid = "-0000-4000-8000-0000"@;
    let t = numbered_uuid_text(a);
    assert(t.len() == 36);
    assert forall|i: int|
        0 <= i < 36 implies (if i == 8 || i == 13 || i == 18 || i == 23 {
        t[i] == '-'
    } else {
        is_lower_hex_digit(#[trigger] t[i])
    }) by {
        if i < 8 {
            assert(t[i] == hi[i]);
        } else if i < 28 {
            assert(t[i] == mid[i - 8]);
        } else {
            assert(t[i] == lo[i - 28]);
        }
    }
    assert(t[14] == mid[6]);
    assert(t[19] == mid[11]);
    if a < 0x1_0000_0000_0000_0000 && b < 0x1_0000_0000_0000_0000 && a != b {
        let u = numbered_uuid_text(b);
        let hib = hex_text(b / 0x1_0000_0000, 8);
        let lob = hex_text(b % 0x1_0000_0000, 8);
        if t == u {
            assert(t.subrange(0, 8) =~= hi);
            assert(u.subrange(0, 8) =~= hib);
            assert(t.subrange(28, 36) =~= lo);
            assert(u.subrange(28, 36) =~= lob);
            assert(a / 0x1_0000_0000 == b / 0x1_0000_0000);
            assert(a % 0x1_0000_0000 == b % 0x1_0000_0000);
        }
    }
}

/// Calls `uuid::Uuid::new_v4` and renders it with its `Display` impl.
///
/// Trusted: the result is random, so only what holds of every outcome is
/// claimed. In the uuid crate, `new_v4` masks a random `u128` so that the
/// version nibble is 4 and the variant bits are `10`, and `Display` writes the
/// lowercase hyphenated form of the 16 bytes. The crate panics when the
/// system's random source fails; that case is left unsaid.
#[verifier::external_body]
fn random_uuid_text() -> (text: String)
    ensures
        is_uuid_v4_text(text@),
{
    uuid::Uuid::new_v4().to_string()
}

/// The one-character text of the hexadecimal digit `d`.
fn hex_digit_str(d: u64) -> (text: &'static str)
    requires
        d < 16,
    ensures
        text@ == seq![hex_char(d as int)],
{
    proof {
        reveal_strlit("0");
        reveal_strlit("1");
        reveal_strlit("2");
        reveal_strlit("3");
        reveal_strlit("4");
        reveal_strlit("5");
        reveal_strlit("6");
        reveal_strlit("7");
        reveal_strlit("8");
        reveal_strlit("9");
        reveal_strlit("a");
        reveal_strlit("b");
        reveal_strlit("c");
        reveal_strlit("d");
        reveal_strlit("e");
        reveal_strlit("f");
    }
    if d == 0 {
        "0"
    } else if d == 1 {
        "1"
    } else if d == 2 {
        "2"
    } else if d == 3 {
        "3"
    } else if d == 4 {
        "4"
    } else if d == 5 {
        "5"
    } else if d == 6 {
        "6"
    } else if d == 7 {
        "7"
    } else if d == 8 {
        "8"
    } else if d == 9 {
        "9"
    } else if d == 10 {
        "a"
    } else if d == 11 {
        "b"
    } else if d == 12 {
        "c"
    } else if d == 13 {
        "d"
    } else if d == 14 {
        "e"
    } else {
        "f"
    }
}

/// The last `w` hexadecimal digits of `k`.
fn hex_string(k: u64, w: u64) -> (text: String)
    ensures
        text@ == hex_text(k as nat, w as nat),
    decreases w,
{
    if w == 0 {
        String::new()
    } else {
        let mut text = hex_string(k / 16, w - 1);
        text.append(hex_digit_str(k % 16));
        text
    }
}

/// The identifier whose text is `numbered_uuid_text(k)`.
pub(crate) fn numbered_id(k: u64) -> (id: HotkeyId)
    ensures
        id.0@ == numbered_uuid_text(k as nat),
        is_uuid_v4_text(id.0@),
{
    proof {
        reveal_strlit("-0000-4000-8000-0000");
        lemma_numbered_uuid_text(k as nat, k as nat);
    }
    let mut text = hex_string(k / 0x1_0000_0000, 8);
    text.append("-0000-4000-8000-0000");
    let low = hex_string(k % 0x1_0000_0000, 8);
    text.append(low.as_str());
    HotkeyId(text)
}

/// Unique identifier for registered hotkeys
#[derive(Debug, Clone, Hash, Eq, PartialEq)]
pub struct HotkeyId(pub String);

impl HotkeyId {
    /// A fresh identifier: the text of a random version 4 UUID.
    pub fn new() -> (id: Self)
        ensures
            is_uuid_v4_text(id.0@),
    {
        HotkeyId(random_uuid_text())
    }
}

/// Modifier key configuration
#[derive(Debug, Clone, Copy, PartialEq, Eq, Structural)]
pub struct Modifiers {
    pub command: bool,
    pub option: bool,
    pub control: bool,
    pub shift: bool,
}

impl Default for Modifiers {
    fn default() -> (m: Self)
        ensures
            m == Modifiers::spec_empty(),
    {
        Self::empty()
    }
}

impl Modifiers {
    /// No modifier at all.
    pub open spec fn spec_empty() -> Modifiers {
        Modifiers { command: false, option: false, control: false, shift: false }
    }

    /// No modifier at all.
    pub fn empty() -> (m: Self)
        ensures
            m == Modifiers::spec_empty(),
    {
        Self { command: false, option: false, control: false, shift: false }
    }

    /// Command alone.
    pub fn command() -> (m: Self)
        ensures
            m == (Modifiers { command: true, ..Modifiers::spec_empty() }),
    {
        Self { command: true, ..Self::empty() }
    }
}

/// The event-flag bit mask that a modifier configuration stands for: the
/// command, option, control and shift bits of the keys it asks for.
pub open spec fn modifier_flags(m: Modifiers) -> u64 {
    (if m.command { CMD_FLAG } else { 0u64 }) | (if m.option { OPT_FLAG } else { 0u64 }) | (
    if m.control { CTRL_FLAG } else { 0u64 }) | (if m.shift { SHIFT_FLAG } else { 0u64 })
}

proof fn lemma_or_zero(x: u64)
    ensures
        x | 0u64 == x,
{
    assert(x | 0u64 == x) by (bit_vector);
}

proof fn lemma_or_zero_left(x: u64)
    ensures
        0u64 | x == x,
{
    assert(0u64 | x == x) by (bit_vector);
}

/// Hotkey definition
#[derive(Debug, Clone)]
pub struct Hotkey {
    /// One or more keycodes to match (e.g., [96, 176] for F5 in both modes)
    pub keycodes: Vec<i64>,
    /// Required modifier keys
    pub modifiers: Modifiers,
    /// Whether to consume the event (block system from seeing it)
    pub consume: bool,
    /// Event name to emit when hotkey is triggered
    pub event_name: String,
}

impl Hotkey {
    /// Convert modifiers to flag bitmask
    pub fn get_modifier_flags(&self) -> (flags: u64)
        ensures
            flags == modifier_flags(self.modifiers),
    {
        let mut flags = 0u64;
        if self.modifiers.command {
            flags |= CMD_FLAG;
        }
        assert(flags == 0u64 | (if self.modifiers.command { CMD_FLAG } else { 0u64 })) by {
            lemma_or_zero(0u64);
        }
        let ghost f1 = flags;
        if self.modifiers.option {
            flags |= OPT_FLAG;
        }
        assert(flags == f1 | (if self.modifiers.option { OPT_FLAG } else { 0u64 })) by {
            lemma_or_zero(f1);
        }
        let ghost f2 = flags;
        if self.modifiers.control {
            flags |= CTRL_FLAG;
        }
        assert(flags == f2 | (if self.modifiers.control { CTRL_FLAG } else { 0u64 })) by {
            lemma_or_zero(f2);
        }
        let ghost f3 = flags;
        if self.modifiers.shift {
            flags |= SHIFT_FLAG;
        }
        assert(flags == f3 | (if self.modifiers.shift { SHIFT_FLAG } else { 0u64 })) by {
            lemma_or_zero(f3);
        }
        assert(flags == modifier_flags(self.modifiers)) by {
            lemma_or_zero_left((if self.modifiers.command { CMD_FLAG } else { 0u64 }));
        }
        flags
    }
}

/// Event data sent when a hotkey is triggered
#[derive(Debug, Clone, Copy, PartialEq, Eq, Structural)]
pub struct KeypressEvent {
    pub keycode: i64,
    pub raw_flags: u64,
    pub user_modifiers: u64,
}

/// Keycode discovery event (for developer utility)
#[derive(Debug, Clone)]
pub struct KeycodeDiscovery {
    pub keycode: i64,
    pub raw_flags: u64,
    pub user_modifiers: u64,
    pub key_name: Option<String>,
}

/// The flag mask of a modifier configuration holds only user-intentional
/// bits, holds each of them exactly when the configuration asks for that
/// key, and is zero for no modifier: a hotkey asks for exactly the keys
/// whose bits the event must show.
pub proof fn law_modifier_flags(m: Modifiers)
    ensures
        crate::constants::user_modifiers(modifier_flags(m)) == modifier_flags(m),
        (modifier_flags(m) & CMD_FLAG != 0) == m.command,
        (modifier_flags(m) & OPT_FLAG != 0) == m.option,
        (modifier_flags(m) & CTRL_FLAG != 0) == m.control,
        (modifier_flags(m) & SHIFT_FLAG != 0) == m.shift,
        modifier_flags(Modifiers::spec_empty()) == 0,
{
    let c = m.command;
    let o = m.option;
    let t = m.control;
    let s = m.shift;
    assert({
        let f = (if c { 0x100000u64 } else { 0u64 }) | (if o { 0x80000u64 } else { 0u64 }) | (
        if t { 0x40000u64 } else { 0u64 }) | (if s { 0x20000u64 } else { 0u64 });
        &&& f & 0x1e0000u64 == f
        &&& (f & 0x100000u64 != 0) == c
        &&& (f & 0x80000u64 != 0) == o
        &&& (f & 0x40000u64 != 0) == t
        &&& (f & 0x20000u64 != 0) == s
    }) by (bit_vector);
    assert(0u64 | 0u64 | 0u64 | 0u64 == 0u64) by (bit_vector);
}

/// Different modifier configurations have different flag masks.
pub proof fn law_modifier_flags_injective(a: Modifiers, b: Modifiers)
    ensures
        modifier_flags(a) == modifier_flags(b) <==> a == b,
{
    law_modifier_flags(a);
    law_modifier_flags(b);
}

} // verus!
