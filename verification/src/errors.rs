//! The categorical error outcomes the shortcut core surfaces.

use vstd::prelude::*;

verus! {

/// Every failure the core reports, one variant per categorical outcome.
#[derive(Clone, Copy, PartialEq, Eq, Structural, Debug)]
pub enum ShortcutError {
    /// The shortcut text failed validation.
    Invalid,
    /// The hotkey back end refused to parse the text into a chord.
    ParseFailed,
    /// The chord is already registered.
    AlreadyRegistered,
    /// The chord parsed but the host refused to install it.
    RegistrationRefused,
    /// Accessibility permission was absent even after the prompt.
    PermissionDenied,
    /// The host refused the native modifier monitor despite permission.
    MonitorInstallFailed,
    /// The id is absent from the settings or the action table.
    NotFound,
    /// A dynamic endpoint was called on a non-dynamic binding.
    NotDynamic,
    /// A scheduling or locking fault inside the host glue.
    Internal,
}

/// The user-facing description of each error outcome.
pub open spec fn message_spec(e: ShortcutError) -> Seq<char> {
    match e {
        ShortcutError::Invalid => "shortcut must contain at least one non-modifier key"@,
        ShortcutError::ParseFailed => "failed to parse shortcut"@,
        ShortcutError::AlreadyRegistered => "shortcut is already in use"@,
        ShortcutError::RegistrationRefused => "couldn't register shortcut"@,
        ShortcutError::PermissionDenied => "accessibility permission is required for fn key shortcuts"@,
        ShortcutError::MonitorInstallFailed => "failed to install fn key monitor"@,
        ShortcutError::NotFound => "binding not found"@,
        ShortcutError::NotDynamic => "binding is not marked as dynamic"@,
        ShortcutError::Internal => "internal shortcut subsystem failure"@,
    }
}

impl ShortcutError {
    /// A short description of the error, for the embedding layer to show.
    pub fn message(&self) -> (r: &'static str)
        ensures
            r@ == message_spec(*self),
    {
        match self {
            ShortcutError::Invalid => "shortcut must contain at least one non-modifier key",
            ShortcutError::ParseFailed => "failed to parse shortcut",
            ShortcutError::AlreadyRegistered => "shortcut is already in use",
            ShortcutError::RegistrationRefused => "couldn't register shortcut",
            ShortcutError::PermissionDenied => "accessibility permission is required for fn key shortcuts",
            ShortcutError::MonitorInstallFailed => "failed to install fn key monitor",
            ShortcutError::NotFound => "binding not found",
            ShortcutError::NotDynamic => "binding is not marked as dynamic",
            ShortcutError::Internal => "internal shortcut subsystem failure",
        }
    }
}

} // verus!
