//! Errors of the hotkey registry.
use vstd::prelude::*;

verus! {

/// What a registry operation, or the host around it, can fail with.
#[derive(Debug, Clone, Copy, PartialEq, Eq, Structural)]
pub enum Error {
    /// The event tap could not be created (Input Monitoring not granted).
    EventTapCreationFailed,
    /// No hotkey is registered under the identifier.
    HotkeyNotFound,
    /// The lock on the shared registry could not be taken.
    LockError,
    /// The platform is not macOS.
    UnsupportedPlatform,
    /// A keycode that no key has.
    InvalidKeycode(i64),
}

/// Result of the plugin's operations.
pub type Result<T> = core::result::Result<T, Error>;

} // verus!
