//! Hotkey registry and keyboard-event decisions for a macOS input monitor.
//!
//! The library keeps the set of registered hotkeys, turns modifier
//! choices into the bit masks that macOS reports in its event flags, and
//! decides for each key-down event which hotkey events are emitted and
//! whether the event is consumed before the system sees it.

pub mod commands;
pub mod constants;
pub mod error;
pub mod event_tap;
pub mod manager;
pub mod models;

pub use commands::{discover_keycode, get_keycode_table};
pub use constants::{extract_user_modifiers, get_function_key_codes};
pub use error::{Error, Result};
pub use event_tap::{EventTap, KeyEventDecision};
pub use manager::HotkeyManager;
pub use models::{Hotkey, HotkeyId, KeycodeDiscovery, KeypressEvent, Modifiers};
