//! Hotkey manager: the registry handle that the host application shares
//! between its commands and the event tap's callback.
use vstd::prelude::*;

use crate::error::Error;
use crate::event_tap::{
    law_tap_history, registered_by_history, registry_step, EventTap, KeyEventDecision,
    RegistryCall,
};
use crate::models::{Hotkey, HotkeyId};

verus! {

/// Main manager for registering and managing hotkeys
pub struct HotkeyManager {
    event_tap: EventTap,
}

impl HotkeyManager {
    /// The event tap whose registry this manager keeps.
    pub closed spec fn tap(&self) -> EventTap {
        self.event_tap
    }

    /// Well-formed: the registry holds no identifier twice.
    pub open spec fn wf(&self) -> bool {
        self.tap().wf()
    }

    /// The registered hotkeys, by identifier text.
    pub open spec fn registry(&self) -> Map<Seq<char>, Hotkey> {
        self.tap().registry()
    }

    /// A manager over an empty registry.
    pub fn new() -> (manager: Self)
        ensures
            manager.wf(),
            manager.registry() == Map::<Seq<char>, Hotkey>::empty(),
            manager.tap().entries() == Seq::<(HotkeyId, Hotkey)>::empty(),
    {
        HotkeyManager { event_tap: EventTap::new() }
    }

    /// Register a new hotkey
    pub fn register(&mut self, hotkey: Hotkey) -> (res: Result<HotkeyId, Error>)
        requires
            old(self).wf(),
        ensures
            final(self).wf(),
            res matches Ok(id) && {
                &&& crate::models::is_uuid_v4_text(id.0@)
                &&& !old(self).registry().dom().contains(id.0@)
                &&& final(self).registry().dom().len() == old(self).registry().dom().len() + 1
                &&& final(self).tap().entries() == crate::event_tap::entries_after_insert(
                    old(self).tap().entries(),
                    id,
                    hotkey,
                )
                &&& final(self).registry() == old(self).registry().insert(id.0@, hotkey)
                &&& final(self).registry().dom().contains(id.0@)
                &&& registry_step(
                    old(self).registry(),
                    RegistryCall::Register(id.0@),
                    final(self).registry(),
                )
            },
    {
        self.event_tap.register(hotkey)
    }

    /// Unregister a hotkey
    pub fn unregister(&mut self, id: &HotkeyId) -> (res: Result<(), Error>)
        requires
            old(self).wf(),
        ensures
            final(self).wf(),
            res is Ok <==> old(self).registry().dom().contains(id.0@),
            res is Ok ==> final(self).tap().entries() == old(self).tap().entries().remove(
                crate::event_tap::key_position(old(self).tap().entries(), id.0@),
            ),
            res is Err ==> res == Err::<(), Error>(Error::HotkeyNotFound) && final(self).tap().entries()
                == old(self).tap().entries(),
            final(self).registry() == old(self).registry().remove(id.0@),
            !final(self).registry().dom().contains(id.0@),
            registry_step(
                old(self).registry(),
                RegistryCall::Unregister(id.0@, res is Ok),
                final(self).registry(),
            ),
    {
        self.event_tap.unregister(id)
    }

    /// Check if a hotkey is registered
    pub fn is_registered(&self, id: &HotkeyId) -> (registered: bool)
        requires
            self.wf(),
        ensures
            registered == self.registry().dom().contains(id.0@),
    {
        self.event_tap.is_registered(id)
    }

    /// Decide what the event tap does with one keyboard event.
    pub fn handle_key_event(&self, event_type: u32, keycode: i64, raw_flags: u64) -> (decision:
        KeyEventDecision)
        requires
            self.wf(),
        ensures
            decision.event == (crate::models::KeypressEvent {
                keycode,
                raw_flags,
                user_modifiers: crate::constants::user_modifiers(raw_flags),
            }),
            event_type != crate::constants::CG_EVENT_KEY_DOWN ==> decision.emitted@.len() == 0
                && !decision.consume,
            event_type == crate::constants::CG_EVENT_KEY_DOWN ==> crate::event_tap::names_view(
                decision.emitted@,
            ) == crate::event_tap::dispatch(self.tap().entries(), keycode, raw_flags).0
                && decision.consume == crate::event_tap::dispatch(
                self.tap().entries(),
                keycode,
                raw_flags,
            ).1,
            event_type == crate::constants::CG_EVENT_KEY_DOWN ==> decision.consume
                == crate::event_tap::some_hotkey_consumes(self.registry(), keycode, raw_flags),
            event_type == crate::constants::CG_EVENT_KEY_DOWN ==> forall|n: int|
                0 <= n < decision.emitted@.len() ==> crate::event_tap::some_hotkey_named(
                    self.registry(),
                    keycode,
                    raw_flags,
                    (#[trigger] decision.emitted@[n])@,
                ),
            event_type == crate::constants::CG_EVENT_KEY_DOWN && !decision.consume ==> forall|
                id: Seq<char>,
            |
                #[trigger] self.registry().dom().contains(id) && crate::event_tap::hotkey_matches(
                    self.registry()[id],
                    keycode,
                    raw_flags,
                ) ==> crate::event_tap::names_view(decision.emitted@).contains(
                    self.registry()[id].event_name@,
                ),
    {
        self.event_tap.handle_key_event(event_type, keycode, raw_flags)
    }

    /// Cleanup (called on drop); the registry is left as it is.
    pub fn cleanup(&mut self)
        ensures
            final(self).tap() == old(self).tap(),
            registry_step(old(self).registry(), RegistryCall::Cleanup, final(self).registry()),
    {
    }
}

/// Starting from `HotkeyManager::new`, after any history of `register`,
/// `unregister` and `cleanup` calls, an identifier is registered exactly when
/// some `register` returned it and no later `unregister` of it succeeded.
pub proof fn law_manager_history(managers: Seq<HotkeyManager>, history: Seq<RegistryCall>)
    requires
        managers.len() == history.len() + 1,
        managers[0].registry() == Map::<Seq<char>, Hotkey>::empty(),
        forall|i: int|
            0 <= i < history.len() ==> registry_step(
                (#[trigger] managers[i]).registry(),
                history[i],
                managers[i + 1].registry(),
            ),
    ensures
        forall|id: Seq<char>|
            #[trigger] managers.last().registry().dom().contains(id) == registered_by_history(
                history,
                id,
            ),
{
    let taps = Seq::new(managers.len(), |i: int| managers[i].tap());
    assert forall|i: int| 0 <= i < history.len() implies registry_step(
        (#[trigger] taps[i]).registry(),
        history[i],
        taps[i + 1].registry(),
    ) by {
        assert(registry_step(managers[i].registry(), history[i], managers[i + 1].registry()));
    }
    law_tap_history(taps, history);
    assert(taps.last() == managers.last().tap());
}

} // verus!
