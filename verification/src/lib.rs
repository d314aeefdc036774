//! Global shortcut dispatch core for a voice-recording desktop utility.
//!
//! The crate models the shortcut subsystem as an explicitly owned state
//! machine: a chord registrar, a modifier-only (function key) monitor, a
//! per-binding toggle table and the settings that feed them.  Outcomes that
//! only the operating system can decide (accessibility trust, whether a
//! monitor or hotkey install succeeds) enter as plain inputs, so every
//! decision the core makes is stated in a contract and proved.

pub mod chord;
pub mod errors;
pub mod laws;
pub mod monitor;
pub mod overlay;
pub mod post_process;
pub mod registrar;
pub mod settings;
pub mod shortcut;
pub mod table;
pub mod text;
pub mod validate;

use vstd::prelude::*;

verus! {

/// A key event edge as delivered by either event source.
#[derive(Clone, Copy, PartialEq, Eq, Structural, Debug)]
pub enum ShortcutState {
    Pressed,
    Released,
}

} // verus!
