//! The hotkey registry behind the event tap, and the decision taken for each
//! keyboard event the tap sees.
//!
//! Registrations are kept in the order in which they were made; each
//! identifier occurs at most once.
use vstd::prelude::*;

use crate::constants::{
    extract_user_modifiers, user_modifiers, CG_EVENT_KEY_DOWN, CMD_FLAG, CTRL_FLAG, OPT_FLAG,
    SHIFT_FLAG, USER_MODIFIER_MASK,
};
use crate::error::Error;
use crate::models::{
    is_uuid_v4_text, lemma_numbered_uuid_text, modifier_flags, numbered_id, numbered_uuid_text,
    Hotkey, HotkeyId, KeypressEvent,
};
use vstd::relations::injective_on;
use vstd::set_lib::{lemma_int_range, lemma_len_subset, lemma_map_size, set_int_range};

verus! {

/// The identifier text of a registry entry.
pub open spec fn entry_key(e: (HotkeyId, Hotkey)) -> Seq<char> {
    e.0.0@
}

/// No identifier occurs twice among the entries.
pub open spec fn keys_distinct(s: Seq<(HotkeyId, Hotkey)>) -> bool {
    forall|i: int, j: int|
        0 <= i < s.len() && 0 <= j < s.len() && i != j ==> entry_key(#[trigger] s[i])
            != entry_key(#[trigger] s[j])
}

/// Some entry carries the identifier `k`.
pub open spec fn holds_key(s: Seq<(HotkeyId, Hotkey)>, k: Seq<char>) -> bool {
    exists|i: int| 0 <= i < s.len() && entry_key(#[trigger] s[i]) == k
}

/// The position of the entry that carries `k` (meaningful when one does).
pub open spec fn key_position(s: Seq<(HotkeyId, Hotkey)>, k: Seq<char>) -> int {
    choose|i: int| 0 <= i < s.len() && entry_key(#[trigger] s[i]) == k
}

/// The entries as a map from identifier text to hotkey.
pub open spec fn registry_of(s: Seq<(HotkeyId, Hotkey)>) -> Map<Seq<char>, Hotkey> {
    Map::new(|k: Seq<char>| holds_key(s, k), |k: Seq<char>| s[key_position(s, k)].1)
}

/// The entries after registering `hotkey` under `id`: the entry with that
/// identifier is replaced in place, or a new entry goes last.
pub open spec fn entries_after_insert(
    s: Seq<(HotkeyId, Hotkey)>,
    id: HotkeyId,
    hotkey: Hotkey,
) -> Seq<(HotkeyId, Hotkey)> {
    if holds_key(s, id.0@) {
        s.update(key_position(s, id.0@), (id, hotkey))
    } else {
        s.push((id, hotkey))
    }
}

/// In a sequence without repeated identifiers, the position of an entry's
/// identifier is that entry's index.
pub proof fn lemma_key_position(s: Seq<(HotkeyId, Hotkey)>, i: int)
    requires
        keys_distinct(s),
        0 <= i < s.len(),
    ensures
        holds_key(s, entry_key(s[i])),
        key_position(s, entry_key(s[i])) == i,
{
    let k = entry_key(s[i]);
    assert(0 <= i < s.len() && entry_key(s[i]) == k);
    let j = key_position(s, k);
    assert(0 <= j < s.len() && entry_key(s[j]) == k);
}

/// A hotkey fires on a key press when the keycode is one of its keycodes and
/// the user-intentional modifiers of the event flags are exactly the ones it
/// asks for.
pub open spec fn hotkey_matches(h: Hotkey, keycode: i64, raw_flags: u64) -> bool {
    h.keycodes@.contains(keycode) && user_modifiers(raw_flags) == modifier_flags(h.modifiers)
}

/// Walking the entries in order: the event names emitted for a key press,
/// and whether the press is consumed. Every matching hotkey emits its event;
/// the first matching hotkey that consumes ends the walk.
pub open spec fn dispatch(s: Seq<(HotkeyId, Hotkey)>, keycode: i64, raw_flags: u64) -> (
    Seq<Seq<char>>,
    bool,
)
    decreases s.len(),
{
    if s.len() == 0 {
        (Seq::empty(), false)
    } else {
        let h = s[0].1;
        let rest = dispatch(s.drop_first(), keycode, raw_flags);
        if hotkey_matches(h, keycode, raw_flags) {
            if h.consume {
                (seq![h.event_name@], true)
            } else {
                (seq![h.event_name@] + rest.0, rest.1)
            }
        } else {
            rest
        }
    }
}

/// Some entry that matches the key press has the event name `name`.
pub open spec fn name_of_match(
    s: Seq<(HotkeyId, Hotkey)>,
    keycode: i64,
    raw_flags: u64,
    name: Seq<char>,
) -> bool {
    exists|i: int|
        0 <= i < s.len() && hotkey_matches(#[trigger] s[i].1, keycode, raw_flags)
            && s[i].1.event_name@ == name
}

/// A key press is consumed exactly when some entry matches it and asks to
/// consume; every emitted name belongs to a matching entry; and when the
/// press is not consumed, every matching entry's name is emitted.
pub proof fn lemma_dispatch(s: Seq<(HotkeyId, Hotkey)>, keycode: i64, raw_flags: u64)
    ensures
        dispatch(s, keycode, raw_flags).1 <==> exists|i: int|
            0 <= i < s.len() && hotkey_matches(#[trigger] s[i].1, keycode, raw_flags)
                && s[i].1.consume,
        forall|n: int|
            0 <= n < dispatch(s, keycode, raw_flags).0.len() ==> name_of_match(
                s,
                keycode,
                raw_flags,
                #[trigger] dispatch(s, keycode, raw_flags).0[n],
            ),
        !dispatch(s, keycode, raw_flags).1 ==> forall|i: int|
            0 <= i < s.len() && hotkey_matches(#[trigger] s[i].1, keycode, raw_flags)
                ==> dispatch(s, keycode, raw_flags).0.contains(s[i].1.event_name@),
    decreases s.len(),
{
    if s.len() > 0 {
        let rest = s.drop_first();
        lemma_dispatch(rest, keycode, raw_flags);
        let d = dispatch(s, keycode, raw_flags);
        let dr = dispatch(rest, keycode, raw_flags);
        assert forall|i: int| 0 <= i < rest.len() implies #[trigger] rest[i] == s[i + 1] by {}
        if hotkey_matches(s[0].1, keycode, raw_flags) && s[0].1.consume {
            assert(d.0 == seq![s[0].1.event_name@]);
            assert forall|n: int| 0 <= n < d.0.len() implies name_of_match(
                s,
                keycode,
                raw_flags,
                #[trigger] d.0[n],
            ) by {
                assert(n == 0);
                assert(hotkey_matches(s[0].1, keycode, raw_flags));
            }
        } else {
            if dr.1 {
                let j = choose|j: int|
                    0 <= j < rest.len() && hotkey_matches(#[trigger] rest[j].1, keycode, raw_flags)
                        && rest[j].1.consume;
                assert(hotkey_matches(s[j + 1].1, keycode, raw_flags));
            }
            if d.1 {
                assert(dr.1);
            } else {
                assert(!dr.1);
                assert forall|i: int|
                    0 <= i < s.len() && hotkey_matches(#[trigger] s[i].1, keycode, raw_flags)
                        && s[i].1.consume implies false by {
                    if i > 0 {
                        assert(rest[i - 1] == s[i]);
                        assert(hotkey_matches(rest[i - 1].1, keycode, raw_flags));
                    }
                }
            }
            if hotkey_matches(s[0].1, keycode, raw_flags) {
                assert(d.0 == seq![s[0].1.event_name@] + dr.0);
                assert forall|n: int| 0 <= n < d.0.len() implies name_of_match(
                    s,
                    keycode,
                    raw_flags,
                    #[trigger] d.0[n],
                ) by {
                    if n == 0 {
                        assert(hotkey_matches(s[0].1, keycode, raw_flags));
                    } else {
                        assert(d.0[n] == dr.0[n - 1]);
                        let j = choose|j: int|
                            0 <= j < rest.len() && hotkey_matches(
                                #[trigger] rest[j].1,
                                keycode,
                                raw_flags,
                            ) && rest[j].1.event_name@ == dr.0[n - 1];
                        assert(hotkey_matches(s[j + 1].1, keycode, raw_flags));
                    }
                }
                if !d.1 {
                    assert forall|i: int|
                        0 <= i < s.len() && hotkey_matches(#[trigger] s[i].1, keycode, raw_flags)
                            implies d.0.contains(s[i].1.event_name@) by {
                        if i == 0 {
                            assert(d.0[0] == s[0].1.event_name@);
                        } else {
                            assert(rest[i - 1] == s[i]);
                            assert(hotkey_matches(rest[i - 1].1, keycode, raw_flags));
                            assert(dr.0.contains(s[i].1.event_name@));
                            let m = choose|m: int| 0 <= m < dr.0.len() && dr.0[m] == s[i].1.event_name@;
                            assert(d.0[m + 1] == dr.0[m]);
                        }
                    }
                }
            } else {
                assert(d == dr);
                assert forall|n: int| 0 <= n < d.0.len() implies name_of_match(
                    s,
                    keycode,
                    raw_flags,
                    #[trigger] d.0[n],
                ) by {
                    let j = choose|j: int|
                        0 <= j < rest.len() && hotkey_matches(#[trigger] rest[j].1, keycode, raw_flags)
                            && rest[j].1.event_name@ == dr.0[n];
                    assert(hotkey_matches(s[j + 1].1, keycode, raw_flags));
                }
                if !d.1 {
                    assert forall|i: int|
                        0 <= i < s.len() && hotkey_matches(#[trigger] s[i].1, keycode, raw_flags)
                            implies d.0.contains(s[i].1.event_name@) by {
                        assert(i != 0);
                        assert(rest[i - 1] == s[i]);
                        assert(hotkey_matches(rest[i - 1].1, keycode, raw_flags));
                    }
                }
            }
        }
    }
}

/// Some registered hotkey matches the key press and consumes it.
pub open spec fn some_hotkey_consumes(
    m: Map<Seq<char>, Hotkey>,
    keycode: i64,
    raw_flags: u64,
) -> bool {
    exists|id: Seq<char>|
        #[trigger] m.dom().contains(id) && hotkey_matches(m[id], keycode, raw_flags) && m[id].consume
}

/// Some registered hotkey matches the key press and has the event name `name`.
pub open spec fn some_hotkey_named(
    m: Map<Seq<char>, Hotkey>,
    keycode: i64,
    raw_flags: u64,
    name: Seq<char>,
) -> bool {
    exists|id: Seq<char>|
        #[trigger] m.dom().contains(id) && hotkey_matches(m[id], keycode, raw_flags)
            && m[id].event_name@ == name
}

/// The walk in registration order, read against the registry: whatever the
/// order, a press is consumed exactly when some registered hotkey matches
/// and consumes; only matching hotkeys emit; and a press that is not consumed
/// emits the event of every matching hotkey.
pub proof fn lemma_dispatch_registry(s: Seq<(HotkeyId, Hotkey)>, keycode: i64, raw_flags: u64)
    requires
        keys_distinct(s),
    ensures
        dispatch(s, keycode, raw_flags).1 == some_hotkey_consumes(
            registry_of(s),
            keycode,
            raw_flags,
        ),
        forall|n: int|
            0 <= n < dispatch(s, keycode, raw_flags).0.len() ==> some_hotkey_named(
                registry_of(s),
                keycode,
                raw_flags,
                #[trigger] dispatch(s, keycode, raw_flags).0[n],
            ),
        !dispatch(s, keycode, raw_flags).1 ==> forall|id: Seq<char>|
            #[trigger] registry_of(s).dom().contains(id) && hotkey_matches(
                registry_of(s)[id],
                keycode,
                raw_flags,
            ) ==> dispatch(s, keycode, raw_flags).0.contains(registry_of(s)[id].event_name@),
{
    lemma_dispatch(s, keycode, raw_flags);
    let m = registry_of(s);
    let d = dispatch(s, keycode, raw_flags);
    if d.1 {
        let i = choose|i: int|
            0 <= i < s.len() && hotkey_matches(#[trigger] s[i].1, keycode, raw_flags)
                && s[i].1.consume;
        lemma_key_position(s, i);
        assert(m.dom().contains(entry_key(s[i])));
    }
    if some_hotkey_consumes(m, keycode, raw_flags) {
        let id = choose|id: Seq<char>|
            #[trigger] m.dom().contains(id) && hotkey_matches(m[id], keycode, raw_flags)
                && m[id].consume;
        let i = key_position(s, id);
        assert(hotkey_matches(s[i].1, keycode, raw_flags));
    }
    assert forall|n: int| 0 <= n < d.0.len() implies some_hotkey_named(
        m,
        keycode,
        raw_flags,
        #[trigger] d.0[n],
    ) by {
        assert(name_of_match(s, keycode, raw_flags, d.0[n]));
        let i = choose|i: int|
            0 <= i < s.len() && hotkey_matches(#[trigger] s[i].1, keycode, raw_flags)
                && s[i].1.event_name@ == d.0[n];
        lemma_key_position(s, i);
        assert(m.dom().contains(entry_key(s[i])));
    }
    if !d.1 {
        assert forall|id: Seq<char>|
            #[trigger] m.dom().contains(id) && hotkey_matches(m[id], keycode, raw_flags) implies d.0.contains(
            m[id].event_name@,
        ) by {
            let i = key_position(s, id);
            assert(hotkey_matches(s[i].1, keycode, raw_flags));
        }
    }
}

/// A hotkey fires on a key press exactly when the keycode is anywhere among
/// its keycodes and each of command, option, control and shift is held in
/// the event flags exactly when the hotkey asks for it; other flag bits and
/// the hotkey's consume choice play no part.
pub open spec fn fires_on(h: Hotkey, keycode: i64, raw_flags: u64) -> bool {
    &&& h.keycodes@.contains(keycode)
    &&& (raw_flags & CMD_FLAG != 0) == h.modifiers.command
    &&& (raw_flags & OPT_FLAG != 0) == h.modifiers.option
    &&& (raw_flags & CTRL_FLAG != 0) == h.modifiers.control
    &&& (raw_flags & SHIFT_FLAG != 0) == h.modifiers.shift
}

/// Some registered hotkey that fires on the key press has the event name
/// `name`.
pub open spec fn fired_named(
    m: Map<Seq<char>, Hotkey>,
    keycode: i64,
    raw_flags: u64,
    name: Seq<char>,
) -> bool {
    exists|id: Seq<char>|
        #[trigger] m.dom().contains(id) && fires_on(m[id], keycode, raw_flags) && m[id].event_name@
            == name
}

/// The match test the walk uses is exactly the firing rule: keycode anywhere
/// in the list, and the four modifier keys held exactly as asked.
pub proof fn law_match_is_firing_rule(h: Hotkey, keycode: i64, raw_flags: u64)
    ensures
        hotkey_matches(h, keycode, raw_flags) == fires_on(h, keycode, raw_flags),
{
    let c = h.modifiers.command;
    let o = h.modifiers.option;
    let t = h.modifiers.control;
    let s = h.modifiers.shift;
    assert({
        let f = (if c { 0x100000u64 } else { 0u64 }) | (if o { 0x80000u64 } else { 0u64 }) | (
        if t { 0x40000u64 } else { 0u64 }) | (if s { 0x20000u64 } else { 0u64 });
        (raw_flags & 0x1e0000u64 == f) == (((raw_flags & 0x100000u64 != 0) == c) && ((raw_flags
            & 0x80000u64 != 0) == o) && ((raw_flags & 0x40000u64 != 0) == t) && ((raw_flags
            & 0x20000u64 != 0) == s))
    }) by (bit_vector);
}

/// What a key press does, read against the registered hotkeys and the
/// firing rule: it is consumed exactly when some registered hotkey fires on
/// it and consumes; each emitted name is the name of a registered hotkey that
/// fires on it; and when it is not consumed, every registered hotkey that
/// fires on it has its name emitted.
pub proof fn law_key_press(tap: EventTap, keycode: i64, raw_flags: u64)
    requires
        tap.wf(),
    ensures
        dispatch(tap.entries(), keycode, raw_flags).1 <==> exists|id: Seq<char>|
            #[trigger] tap.registry().dom().contains(id) && fires_on(
                tap.registry()[id],
                keycode,
                raw_flags,
            ) && tap.registry()[id].consume,
        forall|n: int|
            0 <= n < dispatch(tap.entries(), keycode, raw_flags).0.len() ==> fired_named(
                tap.registry(),
                keycode,
                raw_flags,
                #[trigger] dispatch(tap.entries(), keycode, raw_flags).0[n],
            ),
        !dispatch(tap.entries(), keycode, raw_flags).1 ==> forall|id: Seq<char>|
            #[trigger] tap.registry().dom().contains(id) && fires_on(
                tap.registry()[id],
                keycode,
                raw_flags,
            ) ==> dispatch(tap.entries(), keycode, raw_flags).0.contains(
                tap.registry()[id].event_name@,
            ),
{
    let s = tap.entries();
    let m = tap.registry();
    let d = dispatch(s, keycode, raw_flags);
    lemma_dispatch_registry(s, keycode, raw_flags);
    assert forall|id: Seq<char>| #[trigger] m.dom().contains(id) implies hotkey_matches(
        m[id],
        keycode,
        raw_flags,
    ) == fires_on(m[id], keycode, raw_flags) by {
        law_match_is_firing_rule(m[id], keycode, raw_flags);
    }
    assert forall|n: int| 0 <= n < d.0.len() implies fired_named(
        m,
        keycode,
        raw_flags,
        #[trigger] d.0[n],
    ) by {
        assert(some_hotkey_named(m, keycode, raw_flags, d.0[n]));
        let id = choose|id: Seq<char>|
            #[trigger] m.dom().contains(id) && hotkey_matches(m[id], keycode, raw_flags)
                && m[id].event_name@ == d.0[n];
        assert(m.dom().contains(id));
    }
}

/// Flags that are not command, option, control or shift (fn, caps lock,
/// numeric keypad, internal bits) change nothing in what a key press
/// triggers: the same events are emitted and the press is consumed or not
/// all the same.
pub proof fn law_internal_flags_ignored(
    s: Seq<(HotkeyId, Hotkey)>,
    keycode: i64,
    raw_flags: u64,
    extra_flags: u64,
)
    requires
        extra_flags & USER_MODIFIER_MASK == 0,
    ensures
        dispatch(s, keycode, raw_flags | extra_flags) == dispatch(s, keycode, raw_flags),
    decreases s.len(),
{
    assert((raw_flags | extra_flags) & 0x1e0000u64 == raw_flags & 0x1e0000u64) by (bit_vector)
        requires
            extra_flags & 0x1e0000u64 == 0,
    ;
    if s.len() > 0 {
        law_internal_flags_ignored(s.drop_first(), keycode, raw_flags, extra_flags);
    }
}

/// What the event tap does with one keyboard event: the names of the events
/// to emit, in order, each carrying `event`; and whether the keyboard event
/// is consumed, so that the system never sees it.
pub struct KeyEventDecision {
    pub emitted: Vec<String>,
    pub event: KeypressEvent,
    pub consume: bool,
}

/// The text of each name.
pub open spec fn names_view(names: Seq<String>) -> Seq<Seq<char>> {
    names.map_values(|n: String| n@)
}

/// Whether `keycode` is among `codes`.
fn contains_keycode(codes: &Vec<i64>, keycode: i64) -> (found: bool)
    ensures
        found == codes@.contains(keycode),
{
    let mut i: usize = 0;
    while i < codes.len()
        invariant
            i <= codes@.len(),
            forall|j: int| 0 <= j < i ==> codes@[j] != keycode,
        decreases codes@.len() - i,
    {
        if codes[i] == keycode {
            assert(codes@[i as int] == keycode);
            return true;
        }
        i += 1;
    }
    false
}

/// If the first `k` numbered identifiers are all registered, there are at
/// least `k` entries: distinct identifiers sit at distinct positions.
proof fn lemma_numbered_keys_bound(s: Seq<(HotkeyId, Hotkey)>, k: nat)
    requires
        keys_distinct(s),
        k <= 0x1_0000_0000_0000_0000,
        forall|j: int| 0 <= j < k ==> #[trigger] holds_key(s, numbered_uuid_text(j as nat)),
    ensures
        k <= s.len(),
{
    let f = |j: int| key_position(s, numbered_uuid_text(j as nat));
    let x = set_int_range(0, k as int);
    lemma_int_range(0, k as int);
    assert forall|a: int, b: int| x.contains(a) && x.contains(b) && #[trigger] f(a) == #[trigger] f(
        b,
    ) implies a == b by {
        assert(holds_key(s, numbered_uuid_text(a as nat)));
        assert(holds_key(s, numbered_uuid_text(b as nat)));
        lemma_numbered_uuid_text(a as nat, b as nat);
    }
    assert(injective_on(f, x));
    let y = x.map(f);
    lemma_map_size(x, y, f);
    let r = set_int_range(0, s.len() as int);
    lemma_int_range(0, s.len() as int);
    assert forall|p: int| y.contains(p) implies r.contains(p) by {
        let j = choose|j: int| x.contains(j) && f(j) == p;
        assert(holds_key(s, numbered_uuid_text(j as nat)));
    }
    lemma_len_subset(y, r);
}

/// The registry holds one identifier per entry: as many as there are
/// entries.
pub proof fn lemma_registry_size(s: Seq<(HotkeyId, Hotkey)>)
    requires
        keys_distinct(s),
    ensures
        registry_of(s).dom().finite(),
        registry_of(s).dom().len() == s.len(),
{
    let f = |i: int| entry_key(s[i]);
    let x = set_int_range(0, s.len() as int);
    lemma_int_range(0, s.len() as int);
    assert forall|a: int, b: int| x.contains(a) && x.contains(b) && #[trigger] f(a) == #[trigger] f(
        b,
    ) implies a == b by {}
    assert(injective_on(f, x));
    let y = x.map(f);
    assert forall|k: Seq<char>| #[trigger] y.contains(k) == registry_of(s).dom().contains(k) by {
        if registry_of(s).dom().contains(k) {
            let i = key_position(s, k);
            assert(x.contains(i) && f(i) == k);
        }
    }
    assert(y =~= registry_of(s).dom());
    lemma_map_size(x, y, f);
}

/// CGEventTap registry: the hotkeys that the low-level keyboard
/// interception checks each key press against.
pub struct EventTap {
    entries: Vec<(HotkeyId, Hotkey)>,
}

impl EventTap {
    /// The registrations, in the order in which they were made.
    pub closed spec fn entries(&self) -> Seq<(HotkeyId, Hotkey)> {
        self.entries@
    }

    /// Well-formed: no identifier is registered twice.
    pub open spec fn wf(&self) -> bool {
        keys_distinct(self.entries())
    }

    /// The registered hotkeys, by identifier text.
    pub open spec fn registry(&self) -> Map<Seq<char>, Hotkey> {
        registry_of(self.entries())
    }

    /// An empty registry.
    pub fn new() -> (tap: Self)
        ensures
            tap.wf(),
            tap.entries() == Seq::<(HotkeyId, Hotkey)>::empty(),
            tap.registry() == Map::<Seq<char>, Hotkey>::empty(),
    {
        let tap = EventTap { entries: Vec::new() };
        assert(tap.registry() =~= Map::<Seq<char>, Hotkey>::empty());
        tap
    }

    /// Where the entry with the identifier `id` stands, if there is one.
    fn position_of(&self, id: &HotkeyId) -> (pos: Option<usize>)
        requires
            self.wf(),
        ensures
            pos is None <==> !holds_key(self.entries(), id.0@),
            pos matches Some(i) ==> i < self.entries().len() && i == key_position(
                self.entries(),
                id.0@,
            ),
    {
        let mut i: usize = 0;
        while i < self.entries.len()
            invariant
                i <= self.entries@.len(),
                keys_distinct(self.entries@),
                forall|j: int| 0 <= j < i ==> entry_key(#[trigger] self.entries@[j]) != id.0@,
            decreases self.entries@.len() - i,
        {
            if self.entries[i].0.0 == id.0 {
                proof {
                    lemma_key_position(self.entries@, i as int);
                }
                return Some(i);
            }
            i += 1;
        }
        None
    }

    /// An identifier in UUID version 4 form that is not registered: the first
    /// numbered identifier that is free. One exists among the first
    /// `len + 1`, since the entries hold at most `len` identifiers.
    fn free_numbered_id(&self) -> (id: HotkeyId)
        requires
            self.wf(),
        ensures
            is_uuid_v4_text(id.0@),
            !holds_key(self.entries(), id.0@),
    {
        let n = self.entries.len();
        let mut k: u64 = 0;
        loop
            invariant
                keys_distinct(self.entries@),
                n == self.entries@.len(),
                k <= n,
                forall|j: int| 0 <= j < k ==> #[trigger] holds_key(
                    self.entries@,
                    numbered_uuid_text(j as nat),
                ),
            decreases n - k,
        {
            let id = numbered_id(k);
            match self.position_of(&id) {
                None => {
                    return id;
                },
                Some(_) => {
                    proof {
                        assert forall|j: int| 0 <= j < k + 1 implies #[trigger] holds_key(
                            self.entries@,
                            numbered_uuid_text(j as nat),
                        ) by {
                            if j == k {
                                assert(id.0@ == numbered_uuid_text(j as nat));
                            }
                        }
                        lemma_numbered_keys_bound(self.entries@, (k + 1) as nat);
                    }
                    k = k + 1;
                },
            }
        }
    }

    /// Register `hotkey` under `id`, replacing a hotkey that had that
    /// identifier.
    fn insert(&mut self, id: HotkeyId, hotkey: Hotkey)
        requires
            old(self).wf(),
        ensures
            final(self).wf(),
            final(self).entries() == entries_after_insert(old(self).entries(), id, hotkey),
            final(self).registry() == old(self).registry().insert(id.0@, hotkey),
    {
        let ghost s = self.entries@;
        let ghost k = id.0@;
        match self.position_of(&id) {
            Some(i) => {
                self.entries.set(i, (id, hotkey));
                proof {
                    let t = self.entries@;
                    assert(t == s.update(i as int, (id, hotkey)));
                    assert forall|a: int, b: int|
                        0 <= a < t.len() && 0 <= b < t.len() && a != b implies entry_key(
                        #[trigger] t[a],
                    ) != entry_key(#[trigger] t[b]) by {
                        assert(entry_key(t[a]) == entry_key(s[a]));
                        assert(entry_key(t[b]) == entry_key(s[b]));
                    }
                    assert forall|kk: Seq<char>| #[trigger] holds_key(t, kk) == holds_key(s, kk) by {
                        if holds_key(t, kk) {
                            let a = key_position(t, kk);
                            assert(entry_key(s[a]) == kk);
                        }
                        if holds_key(s, kk) {
                            let a = key_position(s, kk);
                            assert(entry_key(t[a]) == kk);
                        }
                    }
                    assert forall|kk: Seq<char>| holds_key(t, kk) implies #[trigger] registry_of(
                        t,
                    )[kk] == registry_of(s).insert(k, hotkey)[kk] by {
                        let a = key_position(t, kk);
                        lemma_key_position(t, a);
                        if a != i {
                            lemma_key_position(s, a);
                        }
                    }
                    assert(registry_of(t) =~= registry_of(s).insert(k, hotkey));
                }
            },
            None => {
                self.entries.push((id, hotkey));
                proof {
                    let t = self.entries@;
                    assert(t == s.push((id, hotkey)));
                    assert forall|a: int, b: int|
                        0 <= a < t.len() && 0 <= b < t.len() && a != b implies entry_key(
                        #[trigger] t[a],
                    ) != entry_key(#[trigger] t[b]) by {
                        if a < s.len() && b < s.len() {
                            assert(entry_key(t[a]) == entry_key(s[a]));
                            assert(entry_key(t[b]) == entry_key(s[b]));
                        } else if a < s.len() {
                            assert(entry_key(t[a]) == entry_key(s[a]));
                        } else {
                            assert(entry_key(t[b]) == entry_key(s[b]));
                        }
                    }
                    assert forall|kk: Seq<char>| #[trigger]
                        holds_key(t, kk) == (holds_key(s, kk) || kk == k) by {
                        if holds_key(t, kk) {
                            let a = key_position(t, kk);
                            if a < s.len() {
                                assert(entry_key(s[a]) == kk);
                            }
                        }
                        if holds_key(s, kk) {
                            let a = key_position(s, kk);
                            assert(entry_key(t[a]) == kk);
                        }
                        if kk == k {
                            assert(entry_key(t[s.len() as int]) == kk);
                        }
                    }
                    assert forall|kk: Seq<char>| holds_key(t, kk) implies #[trigger] registry_of(
                        t,
                    )[kk] == registry_of(s).insert(k, hotkey)[kk] by {
                        let a = key_position(t, kk);
                        lemma_key_position(t, a);
                        if a < s.len() {
                            lemma_key_position(s, a);
                        }
                    }
                    assert(registry_of(t) =~= registry_of(s).insert(k, hotkey));
                }
            },
        }
    }

    /// Register a new hotkey under a fresh identifier, and return that
    /// identifier. The identifier is a random version 4 UUID; should that
    /// one already be registered, the first free numbered identifier is used
    /// instead, so that a registration never replaces another.
    pub fn register(&mut self, hotkey: Hotkey) -> (res: Result<HotkeyId, Error>)
        requires
            old(self).wf(),
        ensures
            final(self).wf(),
            res matches Ok(id) && {
                &&& is_uuid_v4_text(id.0@)
                &&& !old(self).registry().dom().contains(id.0@)
                &&& final(self).entries() == old(self).entries().push((id, hotkey))
                &&& final(self).registry().dom().len() == old(self).registry().dom().len() + 1
                &&& final(self).entries() == entries_after_insert(old(self).entries(), id, hotkey)
                &&& final(self).registry() == old(self).registry().insert(id.0@, hotkey)
                &&& final(self).registry().dom().contains(id.0@)
                &&& registry_step(
                    old(self).registry(),
                    RegistryCall::Register(id.0@),
                    final(self).registry(),
                )
            },
    {
        let mut id = HotkeyId::new();
        if self.position_of(&id).is_some() {
            id = self.free_numbered_id();
        }
        let key = HotkeyId(id.0.clone());
        self.insert(key, hotkey);
        proof {
            lemma_registry_size(old(self).entries());
            lemma_registry_size(self.entries());
        }
        Ok(id)
    }

    /// Unregister the hotkey with the identifier `id`; `HotkeyNotFound` when
    /// no hotkey has it.
    pub fn unregister(&mut self, id: &HotkeyId) -> (res: Result<(), Error>)
        requires
            old(self).wf(),
        ensures
            final(self).wf(),
            res is Ok <==> old(self).registry().dom().contains(id.0@),
            res is Ok ==> final(self).entries() == old(self).entries().remove(
                key_position(old(self).entries(), id.0@),
            ),
            res is Err ==> res == Err::<(), Error>(Error::HotkeyNotFound) && final(self).entries()
                == old(self).entries(),
            final(self).registry() == old(self).registry().remove(id.0@),
            !final(self).registry().dom().contains(id.0@),
            registry_step(
                old(self).registry(),
                RegistryCall::Unregister(id.0@, res is Ok),
                final(self).registry(),
            ),
    {
        let ghost s = self.entries@;
        let ghost k = id.0@;
        match self.position_of(id) {
            Some(i) => {
                let _removed = self.entries.remove(i);
                proof {
                    let t = self.entries@;
                    assert(t == s.remove(i as int));
                    assert forall|a: int| 0 <= a < t.len() implies #[trigger] t[a] == s[if a < i {
                        a
                    } else {
                        a + 1
                    }] by {}
                    assert forall|a: int, b: int|
                        0 <= a < t.len() && 0 <= b < t.len() && a != b implies entry_key(
                        #[trigger] t[a],
                    ) != entry_key(#[trigger] t[b]) by {
                        let a2 = if a < i { a } else { a + 1 };
                        let b2 = if b < i { b } else { b + 1 };
                        assert(t[a] == s[a2]);
                        assert(t[b] == s[b2]);
                    }
                    lemma_key_position(s, i as int);
                    assert forall|kk: Seq<char>| #[trigger]
                        holds_key(t, kk) == (holds_key(s, kk) && kk != k) by {
                        if holds_key(t, kk) {
                            let a = key_position(t, kk);
                            let a2 = if a < i { a } else { a + 1 };
                            assert(t[a] == s[a2]);
                            assert(entry_key(s[a2]) == kk);
                        }
                        if holds_key(s, kk) && kk != k {
                            let a = key_position(s, kk);
                            if a < i {
                                assert(t[a] == s[a]);
                                assert(entry_key(t[a]) == kk);
                            } else {
                                assert(a != i);
                                assert(t[a - 1] == s[a]);
                                assert(entry_key(t[a - 1]) == kk);
                            }
                        }
                    }
                    assert forall|kk: Seq<char>| holds_key(t, kk) implies #[trigger] registry_of(
                        t,
                    )[kk] == registry_of(s).remove(k)[kk] by {
                        let a = key_position(t, kk);
                        lemma_key_position(t, a);
                        let a2 = if a < i { a } else { a + 1 };
                        assert(t[a] == s[a2]);
                        lemma_key_position(s, a2);
                    }
                    assert(registry_of(t) =~= registry_of(s).remove(k));
                }
                Ok(())
            },
            None => {
                assert(registry_of(s) =~= registry_of(s).remove(k));
                Err(Error::HotkeyNotFound)
            },
        }
    }

    /// Whether a hotkey is registered under the identifier `id`.
    pub fn is_registered(&self, id: &HotkeyId) -> (registered: bool)
        requires
            self.wf(),
        ensures
            registered == self.registry().dom().contains(id.0@),
    {
        self.position_of(id).is_some()
    }

    /// Walk the entries in registration order for a key press with the given
    /// keycode and user-intentional modifiers.
    fn walk(&self, keycode: i64, raw_flags: u64, user_modifiers: u64) -> (res: (Vec<String>, bool))
        requires
            user_modifiers == crate::constants::user_modifiers(raw_flags),
        ensures
            names_view(res.0@) == dispatch(self.entries(), keycode, raw_flags).0,
            res.1 == dispatch(self.entries(), keycode, raw_flags).1,
    {
        let mut emitted: Vec<String> = Vec::new();
        let ghost s = self.entries@;
        assert(s.skip(0) =~= s);
        assert(names_view(emitted@) =~= Seq::<Seq<char>>::empty());
        let mut i: usize = 0;
        while i < self.entries.len()
            invariant
                s == self.entries@,
                i <= s.len(),
                user_modifiers == crate::constants::user_modifiers(raw_flags),
                names_view(emitted@) + dispatch(s.skip(i as int), keycode, raw_flags).0 == dispatch(
                    s,
                    keycode,
                    raw_flags,
                ).0,
                dispatch(s.skip(i as int), keycode, raw_flags).1 == dispatch(s, keycode, raw_flags).1,
            decreases s.len() - i,
        {
            let hotkey = &self.entries[i].1;
            let ghost tail = s.skip(i as int);
            assert(tail.drop_first() =~= s.skip(i + 1));
            assert(tail[0] == s[i as int]);
            let ghost prev = names_view(emitted@);
            if contains_keycode(&hotkey.keycodes, keycode) && user_modifiers
                == hotkey.get_modifier_flags() {
                emitted.push(hotkey.event_name.clone());
                assert(names_view(emitted@) =~= prev.push(hotkey.event_name@));
                if hotkey.consume {
                    assert(dispatch(tail, keycode, raw_flags).0 =~= seq![hotkey.event_name@]);
                    assert(prev + seq![hotkey.event_name@] =~= prev.push(hotkey.event_name@));
                    return (emitted, true);
                }
                assert(prev + (seq![hotkey.event_name@] + dispatch(s.skip(i + 1), keycode, raw_flags).0)
                    =~= prev.push(hotkey.event_name@) + dispatch(s.skip(i + 1), keycode, raw_flags).0);
            }
            i += 1;
        }
        assert(s.skip(i as int) =~= Seq::<(HotkeyId, Hotkey)>::empty());
        assert(names_view(emitted@) + Seq::<Seq<char>>::empty() =~= names_view(emitted@));
        (emitted, false)
    }

    /// Decide what to do with one keyboard event. Only key presses are
    /// looked at: any other event type passes through untouched. For a key
    /// press, the hotkeys are tried in registration order; each one that
    /// matches emits its event, and the first matching one that consumes
    /// stops the walk and consumes the press.
    pub fn handle_key_event(&self, event_type: u32, keycode: i64, raw_flags: u64) -> (decision:
        KeyEventDecision)
        requires
            self.wf(),
        ensures
            decision.event == (KeypressEvent {
                keycode,
                raw_flags,
                user_modifiers: user_modifiers(raw_flags),
            }),
            event_type != CG_EVENT_KEY_DOWN ==> decision.emitted@.len() == 0 && !decision.consume,
            event_type == CG_EVENT_KEY_DOWN ==> names_view(decision.emitted@) == dispatch(
                self.entries(),
                keycode,
                raw_flags,
            ).0 && decision.consume == dispatch(self.entries(), keycode, raw_flags).1,
            event_type == CG_EVENT_KEY_DOWN ==> decision.consume == some_hotkey_consumes(
                self.registry(),
                keycode,
                raw_flags,
            ),
            event_type == CG_EVENT_KEY_DOWN ==> forall|n: int|
                0 <= n < decision.emitted@.len() ==> some_hotkey_named(
                    self.registry(),
                    keycode,
                    raw_flags,
                    (#[trigger] decision.emitted@[n])@,
                ),
            event_type == CG_EVENT_KEY_DOWN && !decision.consume ==> forall|id: Seq<char>|
                #[trigger] self.registry().dom().contains(id) && hotkey_matches(
                    self.registry()[id],
                    keycode,
                    raw_flags,
                ) ==> names_view(decision.emitted@).contains(self.registry()[id].event_name@),
    {
        let user_modifiers = extract_user_modifiers(raw_flags);
        let event = KeypressEvent { keycode, raw_flags, user_modifiers };
        if event_type != CG_EVENT_KEY_DOWN {
            return KeyEventDecision { emitted: Vec::new(), event, consume: false };
        }
        let (emitted, consume) = self.walk(keycode, raw_flags, user_modifiers);
        proof {
            lemma_dispatch_registry(self.entries@, keycode, raw_flags);
            assert forall|n: int| 0 <= n < emitted@.len() implies #[trigger] emitted@[n]@
                == names_view(emitted@)[n] by {}
        }
        KeyEventDecision { emitted, event, consume }
    }
}

/// Registering a hotkey under an identifier that was not registered, then
/// unregistering that identifier, leaves the registry as it was before.
pub proof fn law_unregister_undoes_register(
    before: EventTap,
    registered: EventTap,
    after: EventTap,
    id: HotkeyId,
    hotkey: Hotkey,
)
    requires
        !before.registry().dom().contains(id.0@),
        registered.registry() == before.registry().insert(id.0@, hotkey),
        after.registry() == registered.registry().remove(id.0@),
    ensures
        after.registry() == before.registry(),
{
    assert(after.registry() =~= before.registry());
}

/// Registering under an identifier that was not registered keeps every
/// earlier registration as it was, adds the new one, and grows the registry
/// by exactly one.
pub proof fn law_register_keeps_registrations(
    before: EventTap,
    after: EventTap,
    id: HotkeyId,
    hotkey: Hotkey,
)
    requires
        before.wf(),
        !before.registry().dom().contains(id.0@),
        after.registry() == before.registry().insert(id.0@, hotkey),
    ensures
        forall|k: Seq<char>|
            #[trigger] before.registry().dom().contains(k) ==> after.registry().dom().contains(k)
                && after.registry()[k] == before.registry()[k],
        after.registry()[id.0@] == hotkey,
        after.registry().dom().len() == before.registry().dom().len() + 1,
{
    lemma_registry_size(before.entries());
}

/// Registering or unregistering one identifier leaves the registration of
/// every other identifier as it was.
pub proof fn law_registrations_independent(
    before: EventTap,
    id: HotkeyId,
    other: Seq<char>,
    hotkey: Hotkey,
)
    requires
        id.0@ != other,
    ensures
        before.registry().insert(id.0@, hotkey).dom().contains(other) == before.registry().dom().contains(other),
        before.registry().remove(id.0@).dom().contains(other) == before.registry().dom().contains(other),
        before.registry().dom().contains(other) ==> before.registry().insert(id.0@, hotkey)[other]
            == before.registry()[other] && before.registry().remove(id.0@)[other]
            == before.registry()[other],
{
}


/// One call on the registry, with what it answered.
pub enum RegistryCall {
    /// `register` returned `Ok` with this identifier.
    Register(Seq<char>),
    /// `unregister` of this identifier, and whether it returned `Ok`.
    Unregister(Seq<char>, bool),
    /// `cleanup`.
    Cleanup,
}

/// How one call changes which identifiers are registered: `register` adds
/// the identifier it returned; `unregister` succeeds exactly when its
/// identifier is registered, and afterwards it is not; `cleanup` changes
/// nothing.
pub open spec fn registry_step(
    before: Map<Seq<char>, Hotkey>,
    call: RegistryCall,
    after: Map<Seq<char>, Hotkey>,
) -> bool {
    match call {
        RegistryCall::Register(k) => after.dom() == before.dom().insert(k),
        RegistryCall::Unregister(k, ok) => ok == before.dom().contains(k) && after.dom()
            == before.dom().remove(k),
        RegistryCall::Cleanup => after == before,
    }
}

/// Some call in the history registered `id` and no later unregister of `id`
/// succeeded.
pub open spec fn registered_by_history(history: Seq<RegistryCall>, id: Seq<char>) -> bool {
    exists|i: int|
        0 <= i < history.len() && #[trigger] history[i] == RegistryCall::Register(id) && forall|
            j: int,
        |
            i < j < history.len() ==> #[trigger] history[j] != RegistryCall::Unregister(id, true)
}

/// A last call that neither registers `id` nor unregisters it successfully
/// leaves the history's verdict on `id` as it was.
proof fn lemma_history_unaffected(history: Seq<RegistryCall>, id: Seq<char>)
    requires
        history.len() > 0,
        history.last() != RegistryCall::Register(id),
        history.last() != RegistryCall::Unregister(id, true),
    ensures
        registered_by_history(history, id) == registered_by_history(history.drop_last(), id),
{
    let prefix = history.drop_last();
    if registered_by_history(history, id) {
        let i = choose|i: int|
            0 <= i < history.len() && #[trigger] history[i] == RegistryCall::Register(id) && forall|
                j: int,
            |
                i < j < history.len() ==> #[trigger] history[j] != RegistryCall::Unregister(
                    id,
                    true,
                );
        assert(i < prefix.len());
        assert(prefix[i] == RegistryCall::Register(id));
        assert forall|j: int| i < j < prefix.len() implies #[trigger] prefix[j]
            != RegistryCall::Unregister(id, true) by {
            assert(prefix[j] == history[j]);
        }
    }
    if registered_by_history(prefix, id) {
        let i = choose|i: int|
            0 <= i < prefix.len() && #[trigger] prefix[i] == RegistryCall::Register(id) && forall|
                j: int,
            |
                i < j < prefix.len() ==> #[trigger] prefix[j] != RegistryCall::Unregister(
                    id,
                    true,
                );
        assert(history[i] == RegistryCall::Register(id));
        assert forall|j: int| i < j < history.len() implies #[trigger] history[j]
            != RegistryCall::Unregister(id, true) by {
            if j < prefix.len() {
                assert(prefix[j] == history[j]);
            }
        }
    }
}

/// After any history of calls starting from an empty registry, an
/// identifier is registered exactly when some `register` returned it and no
/// later `unregister` of it succeeded.
pub proof fn law_registry_history(registries: Seq<Map<Seq<char>, Hotkey>>, history: Seq<RegistryCall>)
    requires
        registries.len() == history.len() + 1,
        registries[0].dom() == Set::<Seq<char>>::empty(),
        forall|i: int|
            0 <= i < history.len() ==> registry_step(
                #[trigger] registries[i],
                history[i],
                registries[i + 1],
            ),
    ensures
        forall|id: Seq<char>|
            #[trigger] registries.last().dom().contains(id) == registered_by_history(history, id),
    decreases history.len(),
{
    if history.len() == 0 {
        assert forall|id: Seq<char>| #[trigger]
            registries.last().dom().contains(id) == registered_by_history(history, id) by {
            assert(!registries[0].dom().contains(id));
        }
    } else {
        let n = history.len() - 1;
        let prefix = history.drop_last();
        let earlier = registries.drop_last();
        assert forall|i: int| 0 <= i < prefix.len() implies registry_step(
            #[trigger] earlier[i],
            prefix[i],
            earlier[i + 1],
        ) by {
            assert(registry_step(registries[i], history[i], registries[i + 1]));
        }
        assert(earlier[0] == registries[0]);
        law_registry_history(earlier, prefix);
        let before = registries[n];
        let after = registries[n + 1];
        assert(earlier.last() == before);
        assert(registry_step(before, history[n], after));
        assert forall|id: Seq<char>| #[trigger]
            registries.last().dom().contains(id) == registered_by_history(history, id) by {
            assert(registries.last() == after);
            assert(before.dom().contains(id) == registered_by_history(prefix, id));
            let c = history[n];
            if c == RegistryCall::Register(id) {
                assert(after.dom().contains(id));
                assert(history[n] == RegistryCall::Register(id));
            } else if c == RegistryCall::Unregister(id, true) {
                assert(!after.dom().contains(id));
                if registered_by_history(history, id) {
                    let i = choose|i: int|
                        0 <= i < history.len() && #[trigger] history[i] == RegistryCall::Register(
                            id,
                        ) && forall|j: int|
                            i < j < history.len() ==> #[trigger] history[j]
                                != RegistryCall::Unregister(id, true);
                    assert(i != n);
                    assert(history[n] != RegistryCall::Unregister(id, true));
                }
            } else {
                lemma_history_unaffected(history, id);
                match c {
                    RegistryCall::Register(k) => {
                        assert(k != id);
                    },
                    RegistryCall::Unregister(k, ok) => {
                        if k == id {
                            assert(!ok);
                        }
                    },
                    RegistryCall::Cleanup => {},
                }
                assert(after.dom().contains(id) == before.dom().contains(id));
            }
        }
    }
}

/// The same law read on the event tap's states: starting from `new`, after
/// any history of calls, an identifier is registered exactly when some
/// `register` returned it and no later `unregister` of it succeeded.
pub proof fn law_tap_history(taps: Seq<EventTap>, history: Seq<RegistryCall>)
    requires
        taps.len() == history.len() + 1,
        taps[0].registry() == Map::<Seq<char>, Hotkey>::empty(),
        forall|i: int|
            0 <= i < history.len() ==> registry_step(
                (#[trigger] taps[i]).registry(),
                history[i],
                taps[i + 1].registry(),
            ),
    ensures
        forall|id: Seq<char>|
            #[trigger] taps.last().registry().dom().contains(id) == registered_by_history(
                history,
                id,
            ),
{
    let registries = Seq::new(taps.len(), |i: int| taps[i].registry());
    assert forall|i: int| 0 <= i < history.len() implies registry_step(
        #[trigger] registries[i],
        history[i],
        registries[i + 1],
    ) by {
        assert(registry_step(taps[i].registry(), history[i], taps[i + 1].registry()));
    }
    assert(registries[0].dom() =~= Set::<Seq<char>>::empty());
    law_registry_history(registries, history);
    assert(registries.last() == taps.last().registry());
}

} // verus!
