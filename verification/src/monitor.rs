//! The modifier-only (function key) monitor facade and the accessibility
//! permission gate.  The host's part — trust probes, the user prompt, the
//! native event-monitor install — enters as a plain record of outcomes,
//! so the monitor's own decisions stay provable.

use vstd::prelude::*;

use crate::table::Table;
use crate::text::{chars_of, lower_char, lower_char_spec, lower_seq, vec_chars_eq_str};

verus! {

/// Whether the session is a Wayland one: the Wayland display variable
/// is set, or the session type names Wayland (case-insensitively).  The
/// embedding layer reads the environment and passes what it found.
pub open spec fn wayland_session(display_var_set: bool, session_type: Option<Seq<char>>) -> bool {
    display_var_set || (session_type matches Some(t) && lower_seq(t) == "wayland"@)
}

/// Decides whether the session uses the Wayland display protocol.
pub fn is_wayland(display_var_set: bool, session_type: Option<&str>) -> (r: bool)
    ensures
        r == wayland_session(
            display_var_set,
            match session_type {
                Some(t) => Some(t@),
                None => None,
            },
        ),
{
    if display_var_set {
        return true;
    }
    match session_type {
        None => false,
        Some(t) => {
            let v = chars_of(t);
            let n = v.len();
            let mut lowered: Vec<char> = Vec::new();
            let mut i: usize = 0;
            while i < n
                invariant
                    i <= n,
                    n == v@.len(),
                    v@ == t@,
                    lowered@ == lower_seq(t@.take(i as int)),
                decreases n - i,
            {
                let c = lower_char(v[i]);
                lowered.push(c);
                proof {
                    assert(t@.take(i as int).push(t@[i as int]) =~= t@.take(i as int + 1));
                    assert(lower_seq(t@.take(i as int)).push(lower_char_spec(t@[i as int]))
                        =~= lower_seq(t@.take(i as int + 1)));
                }
                i += 1;
            }
            proof {
                assert(t@.take(n as int) =~= t@);
            }
            vec_chars_eq_str(&lowered, "wayland")
        },
    }
}

/// The outcomes of the host interactions a registration may need: they
/// are inputs to the core, supplied by the embedding layer.
#[derive(Clone, Copy, PartialEq, Eq, Structural, Debug)]
pub struct OsEnv {
    /// Whether the process currently holds accessibility trust.
    pub accessibility_trusted: bool,
    /// Whether the user would grant trust when prompted.
    pub prompt_grants: bool,
    /// Whether installing the native modifier monitor would succeed.
    pub monitor_install_ok: bool,
    /// Whether installing a global hotkey chord would succeed.
    pub chord_install_ok: bool,
}

/// Whether accessibility permission is granted, probed without a prompt.
pub fn has_accessibility_permission(env: &OsEnv) -> (r: bool)
    ensures
        r == env.accessibility_trusted,
{
    env.accessibility_trusted
}

/// Requests accessibility permission, raising the system prompt when it
/// is not yet granted; reports the resulting trust state.
pub fn request_accessibility_permission(env: &mut OsEnv) -> (r: bool)
    ensures
        final(env).accessibility_trusted == (old(env).accessibility_trusted
            || old(env).prompt_grants),
        final(env).prompt_grants == old(env).prompt_grants,
        final(env).monitor_install_ok == old(env).monitor_install_ok,
        final(env).chord_install_ok == old(env).chord_install_ok,
        r == final(env).accessibility_trusted,
{
    if !env.accessibility_trusted && env.prompt_grants {
        env.accessibility_trusted = true;
    }
    env.accessibility_trusted
}

/// The state of the modifier-only monitor: the bindings it serves, the
/// last observed state of the function key, and whether the native
/// monitor has been installed.
pub struct FnMonitor {
    /// Binding id to shortcut text, for every modifier-only binding.
    pub entries: Table<String>,
    /// The last observed state of the function key.
    pub fn_pressed: bool,
    /// Whether the native monitor is installed; installation is lazy and
    /// never undone for the life of the process.
    pub started: bool,
}

impl FnMonitor {
    /// A monitor with no bindings, the key unpressed and nothing
    /// installed.
    pub fn new() -> (r: Self)
        ensures
            r.entries@ == Map::<Seq<char>, Seq<char>>::empty(),
            r.entries.wf(),
            r.entries.entries@.len() == 0,
            !r.fn_pressed,
            !r.started,
    {
        FnMonitor { entries: Table::new(), fn_pressed: false, started: false }
    }
}

} // verus!
