//! The shortcut core: one owned state machine combining the settings,
//! the chord registrar, the modifier-only monitor and the toggle table.
//! Key events go in; the action invocations to perform come out.  No
//! lock is modelled because none is needed: every function returns
//! before its caller runs any action, which is the discipline that keeps
//! re-entrant callbacks safe.

use vstd::prelude::*;

use crate::chord::{parse_chord, parse_chord_spec, ChordV};
use crate::errors::ShortcutError;
use crate::monitor::{FnMonitor, OsEnv};
use crate::registrar::{RegEntry, RegEntryV, Registrar};
use crate::settings::{AppSettings, BindingV, ShortcutBinding};
use crate::table::Table;
use crate::text::str_eq;
use crate::validate::{is_fn_binding, is_fn_text, valid_shortcut, validate_shortcut_string};
use crate::ShortcutState;

verus! {

/// The bit the host sets in its modifier flags while the function key is
/// held.
pub const FUNCTION_MODIFIER_FLAG: u64 = 0x800000;

/// Which operation the dispatcher asks an action to perform.
#[derive(Clone, Copy, PartialEq, Eq, Structural, Debug)]
pub enum ActionKind {
    Start,
    Stop,
}

/// One action invocation the caller must perform after dispatch returns.
pub struct ActionCall {
    pub binding_id: String,
    pub shortcut: String,
    pub kind: ActionKind,
}

/// The mathematical value of an action invocation.
pub struct CallV {
    pub id: Seq<char>,
    pub shortcut: Seq<char>,
    pub kind: ActionKind,
}

impl View for ActionCall {
    type V = CallV;

    open spec fn view(&self) -> CallV {
        CallV { id: self.binding_id@, shortcut: self.shortcut@, kind: self.kind }
    }
}

/// One event from the host's modifier-flag stream.
#[derive(Clone, Copy, PartialEq, Eq, Structural, Debug)]
pub enum MonitorEvent {
    /// The modifier flags changed; the payload is the new flag word.
    FlagsChanged(u64),
    /// Any other event type; ignored.
    Other,
}

/// The ids that have an action, as a set.
pub open spec fn action_set(s: Seq<String>) -> Set<Seq<char>> {
    Set::new(|k: Seq<char>| exists|i: int| 0 <= i < s.len() && s[i]@ == k)
}

/// The view of a call list.
pub open spec fn calls_view(s: Seq<ActionCall>) -> Seq<CallV> {
    s.map_values(|a: ActionCall| a@)
}

/// The view of an entry snapshot: (binding id, shortcut text) pairs.
pub open spec fn snap_view(s: Seq<(String, String)>) -> Seq<(Seq<char>, Seq<char>)> {
    s.map_values(|p: (String, String)| (p.0@, p.1@))
}

/// The shortcut core.
pub struct ShortcutCore {
    /// The persisted settings, bindings and run-mode included.
    pub settings: AppSettings,
    /// The model of the host's global-hotkey table.
    pub registrar: Registrar,
    /// The modifier-only monitor.
    pub monitor: FnMonitor,
    /// The per-binding active flags consulted in toggle mode.
    pub toggles: Table<bool>,
    /// The ids that have an action; fixed at initialization.
    pub actions: Vec<String>,
    /// Whether this platform supports the modifier-only function key.
    pub fn_platform: bool,
}

/// The mathematical state of the core.
pub struct CoreV {
    pub bindings: Map<Seq<char>, BindingV>,
    pub push_to_talk: bool,
    pub registered: Map<ChordV, RegEntryV>,
    pub fn_entries: Map<Seq<char>, Seq<char>>,
    pub fn_pressed: bool,
    pub monitor_started: bool,
    pub toggles: Map<Seq<char>, bool>,
    pub actions: Set<Seq<char>>,
    pub fn_platform: bool,
}

impl View for ShortcutCore {
    type V = CoreV;

    open spec fn view(&self) -> CoreV {
        CoreV {
            bindings: self.settings.bindings@,
            push_to_talk: self.settings.push_to_talk,
            registered: self.registrar@,
            fn_entries: self.monitor.entries@,
            fn_pressed: self.monitor.fn_pressed,
            monitor_started: self.monitor.started,
            toggles: self.toggles@,
            actions: action_set(self.actions@),
            fn_platform: self.fn_platform,
        }
    }
}

impl ShortcutCore {
    /// Every keyed collection of the core has unique keys.
    pub open spec fn wf(&self) -> bool {
        self.settings.wf() && self.registrar.wf() && self.monitor.entries.wf()
            && self.toggles.wf()
    }

    /// A core over the given settings and action ids, with nothing
    /// registered yet.
    pub fn new(settings: AppSettings, actions: Vec<String>, fn_platform: bool) -> (r: Self)
        requires
            settings.wf(),
        ensures
            r.wf(),
            r.settings == settings,
            r.actions == actions,
            r.fn_platform == fn_platform,
            r@.registered == Map::<ChordV, RegEntryV>::empty(),
            r@.fn_entries == Map::<Seq<char>, Seq<char>>::empty(),
            !r@.fn_pressed,
            !r@.monitor_started,
            r@.toggles == Map::<Seq<char>, bool>::empty(),
    {
        ShortcutCore {
            settings,
            registrar: Registrar::new(),
            monitor: FnMonitor::new(),
            toggles: Table::new(),
            actions,
            fn_platform,
        }
    }
}

/// What one key event does: in push-to-talk mode the hardware edge is
/// mirrored; in toggle mode a press flips the binding's flag and fires
/// the matching operation, and a release is ignored.  An id without an
/// action is a no-op.
pub open spec fn dispatch_spec(c: CoreV, id: Seq<char>, sc: Seq<char>, st: ShortcutState) -> (
    CoreV,
    Seq<CallV>,
) {
    if !c.actions.contains(id) {
        (c, Seq::empty())
    } else if c.push_to_talk {
        if st == ShortcutState::Pressed {
            (c, seq![CallV { id, shortcut: sc, kind: ActionKind::Start }])
        } else {
            (c, seq![CallV { id, shortcut: sc, kind: ActionKind::Stop }])
        }
    } else {
        if st == ShortcutState::Pressed {
            let was = if c.toggles.contains_key(id) {
                c.toggles[id]
            } else {
                false
            };
            (
                CoreV { toggles: c.toggles.insert(id, !was), ..c },
                seq![
                    CallV {
                        id,
                        shortcut: sc,
                        kind: if !was {
                            ActionKind::Start
                        } else {
                            ActionKind::Stop
                        },
                    },
                ],
            )
        } else {
            (c, Seq::empty())
        }
    }
}

/// Dispatching an edge to each snapshot entry in order.
pub open spec fn monitor_fold(
    c: CoreV,
    entries: Seq<(Seq<char>, Seq<char>)>,
    st: ShortcutState,
) -> (CoreV, Seq<CallV>)
    decreases entries.len(),
{
    if entries.len() == 0 {
        (c, Seq::empty())
    } else {
        let prev = monitor_fold(c, entries.drop_last(), st);
        let step = dispatch_spec(prev.0, entries.last().0, entries.last().1, st);
        (step.0, prev.1 + step.1)
    }
}

/// Every toggle flag of `m`, reset to `false`.
pub open spec fn all_false(m: Map<Seq<char>, bool>) -> Map<Seq<char>, bool> {
    Map::new(|k: Seq<char>| m.dom().contains(k), |k: Seq<char>| false)
}

/// Whether the id has an action.
fn contains_id(v: &Vec<String>, id: &str) -> (r: bool)
    ensures
        r == action_set(v@).contains(id@),
{
    let n = v.len();
    let mut i: usize = 0;
    while i < n
        invariant
            i <= n,
            n == v@.len(),
            forall|j: int| 0 <= j < i ==> v@[j]@ != id@,
        decreases n - i,
    {
        if str_eq(v[i].as_str(), id) {
            proof {
                assert(action_set(v@).contains(id@)) by {
                    assert(v@[i as int]@ == id@);
                }
            }
            return true;
        }
        i += 1;
    }
    proof {
        assert(!action_set(v@).contains(id@)) by {
            if action_set(v@).contains(id@) {
                let j = choose|j: int| 0 <= j < v@.len() && v@[j]@ == id@;
            }
        }
    }
    false
}

/// The unified dispatch point both event sources call: applies the
/// run-mode discipline and returns the action invocations to perform.
/// The caller runs them after this returns, so no state of the core is
/// ever held across an action.
pub fn dispatch_binding_event(
    core: &mut ShortcutCore,
    binding_id: &str,
    shortcut_string: &str,
    state: ShortcutState,
) -> (calls: Vec<ActionCall>)
    requires
        old(core).wf(),
    ensures
        final(core).wf(),
        final(core)@ == dispatch_spec(old(core)@, binding_id@, shortcut_string@, state).0,
        calls_view(calls@) == dispatch_spec(old(core)@, binding_id@, shortcut_string@, state).1,
        final(core).settings == old(core).settings,
        final(core).registrar == old(core).registrar,
        final(core).monitor == old(core).monitor,
        final(core).actions == old(core).actions,
        final(core).fn_platform == old(core).fn_platform,
{
    let ghost spec_out = dispatch_spec(old(core)@, binding_id@, shortcut_string@, state);
    if !contains_id(&core.actions, binding_id) {
        let calls: Vec<ActionCall> = Vec::new();
        proof {
            assert(calls_view(calls@) =~= spec_out.1);
        }
        return calls;
    }
    if core.settings.push_to_talk {
        let mut calls: Vec<ActionCall> = Vec::new();
        let kind = if state == ShortcutState::Pressed {
            ActionKind::Start
        } else {
            ActionKind::Stop
        };
        calls.push(
            ActionCall {
                binding_id: String::from_str(binding_id),
                shortcut: String::from_str(shortcut_string),
                kind,
            },
        );
        proof {
            assert(calls_view(calls@) =~= spec_out.1);
        }
        calls
    } else {
        if state == ShortcutState::Pressed {
            let was = match core.toggles.get(binding_id) {
                Some(b) => *b,
                None => false,
            };
            core.toggles.insert(String::from_str(binding_id), !was);
            let mut calls: Vec<ActionCall> = Vec::new();
            let kind = if !was {
                ActionKind::Start
            } else {
                ActionKind::Stop
            };
            calls.push(
                ActionCall {
                    binding_id: String::from_str(binding_id),
                    shortcut: String::from_str(shortcut_string),
                    kind,
                },
            );
            proof {
                assert(calls_view(calls@) =~= spec_out.1);
            }
            calls
        } else {
            let calls: Vec<ActionCall> = Vec::new();
            proof {
                assert(calls_view(calls@) =~= spec_out.1);
            }
            calls
        }
    }
}

/// A snapshot of the monitor's entries, taken before dispatch so that no
/// state is read while actions may re-enter the core.
fn snapshot_entries(t: &Table<String>) -> (r: Vec<(String, String)>)
    ensures
        snap_view(r@) == snap_view(t.entries@),
{
    let n = t.entries.len();
    let mut r: Vec<(String, String)> = Vec::new();
    let mut i: usize = 0;
    while i < n
        invariant
            i <= n,
            n == t.entries@.len(),
            r@.len() == i,
            forall|j: int| 0 <= j < i ==> r@[j].0@ == t.entries@[j].0@ && r@[j].1@
                == t.entries@[j].1@,
        decreases n - i,
    {
        let id = t.entries[i].0.clone();
        let sc = t.entries[i].1.clone();
        r.push((id, sc));
        i += 1;
    }
    proof {
        assert(snap_view(r@) =~= snap_view(t.entries@));
    }
    r
}

/// Handles one event from the modifier-flag stream: ignores everything
/// but flag changes, edge-detects the function key, updates the pressed
/// state, and dispatches the edge to every modifier-only binding that
/// was registered when the event arrived.
pub fn handle_monitor_event(core: &mut ShortcutCore, event: MonitorEvent) -> (calls: Vec<
    ActionCall,
>)
    requires
        old(core).wf(),
    ensures
        final(core).wf(),
        final(core).settings == old(core).settings,
        final(core).registrar == old(core).registrar,
        final(core).actions == old(core).actions,
        final(core).fn_platform == old(core).fn_platform,
        final(core).monitor.entries == old(core).monitor.entries,
        final(core).monitor.started == old(core).monitor.started,
        (match event {
            MonitorEvent::Other => final(core)@ == old(core)@ && calls@.len() == 0,
            MonitorEvent::FlagsChanged(flags) => {
                let pressed = flags & FUNCTION_MODIFIER_FLAG != 0;
                if pressed == old(core)@.fn_pressed {
                    final(core)@ == old(core)@ && calls@.len() == 0
                } else {
                    let stepped = CoreV { fn_pressed: pressed, ..old(core)@ };
                    let st = if pressed {
                        ShortcutState::Pressed
                    } else {
                        ShortcutState::Released
                    };
                    let folded = monitor_fold(
                        stepped,
                        snap_view(old(core).monitor.entries.entries@),
                        st,
                    );
                    final(core)@ == folded.0 && calls_view(calls@) == folded.1
                }
            },
        }),
{
    let flags = match event {
        MonitorEvent::FlagsChanged(f) => f,
        MonitorEvent::Other => {
            return Vec::new();
        },
    };
    let pressed = flags & FUNCTION_MODIFIER_FLAG != 0;
    if pressed == core.monitor.fn_pressed {
        return Vec::new();
    }
    core.monitor.fn_pressed = pressed;
    let ghost stepped = core@;
    let snap = snapshot_entries(&core.monitor.entries);
    let ghost snapv = snap_view(old(core).monitor.entries.entries@);
    proof {
        assert(snap_view(snap@) == snapv);
    }
    let st = if pressed {
        ShortcutState::Pressed
    } else {
        ShortcutState::Released
    };
    let mut calls: Vec<ActionCall> = Vec::new();
    let mut i: usize = 0;
    while i < snap.len()
        invariant
            i <= snap@.len(),
            core.wf(),
            snap_view(snap@) == snapv,
            core@ == monitor_fold(stepped, snapv.take(i as int), st).0,
            calls_view(calls@) == monitor_fold(stepped, snapv.take(i as int), st).1,
            core.settings == old(core).settings,
            core.registrar == old(core).registrar,
            core.actions == old(core).actions,
            core.fn_platform == old(core).fn_platform,
            core.monitor.entries == old(core).monitor.entries,
            core.monitor.started == old(core).monitor.started,
            core.monitor.fn_pressed == pressed,
            st == (if pressed {
                ShortcutState::Pressed
            } else {
                ShortcutState::Released
            }),
        decreases snap@.len() - i,
    {
        proof {
            assert(snapv.take(i as int + 1).drop_last() =~= snapv.take(i as int));
            assert(snapv.take(i as int + 1).last() == snapv[i as int]);
            assert(snapv[i as int] == (snap@[i as int].0@, snap@[i as int].1@));
        }
        let mut step = dispatch_binding_event(
            core,
            snap[i].0.as_str(),
            snap[i].1.as_str(),
            st,
        );
        let ghost calls0 = calls@;
        let ghost step0 = step@;
        calls.append(&mut step);
        proof {
            assert(calls_view(calls@) =~= calls_view(calls0) + calls_view(step0));
        }
        i += 1;
    }
    proof {
        assert(snapv.take(snap@.len() as int) =~= snapv);
    }
    calls
}

/// Resets every toggle flag, without firing any action: the cancel path
/// discards work instead of completing it.
pub fn cancel_current_operation(core: &mut ShortcutCore)
    requires
        old(core).wf(),
    ensures
        final(core).wf(),
        final(core)@ == (CoreV { toggles: all_false(old(core)@.toggles), ..old(core)@ }),
        final(core).settings == old(core).settings,
        final(core).registrar == old(core).registrar,
        final(core).monitor == old(core).monitor,
        final(core).actions == old(core).actions,
{
    let n = core.toggles.entries.len();
    let mut i: usize = 0;
    while i < n
        invariant
            i <= n,
            n == core.toggles.entries@.len(),
            core.toggles.entries@.len() == old(core).toggles.entries@.len(),
            forall|j: int| 0 <= j < n ==> core.toggles.entries@[j].0@
                == old(core).toggles.entries@[j].0@,
            forall|j: int| 0 <= j < i ==> core.toggles.entries@[j].1 == false,
            forall|j: int| i <= j < n ==> core.toggles.entries@[j].1
                == old(core).toggles.entries@[j].1,
            core.settings == old(core).settings,
            core.registrar == old(core).registrar,
            core.monitor == old(core).monitor,
            core.actions == old(core).actions,
            core.fn_platform == old(core).fn_platform,
        decreases n - i,
    {
        let key = core.toggles.entries[i].0.clone();
        core.toggles.entries.set(i, (key, false));
        i += 1;
    }
    proof {
        assert(core.toggles.wf()) by {
            assert(forall|a: int, b: int|
                0 <= a < b < core.toggles.entries@.len() ==> core.toggles.entries@[a].0@
                    != core.toggles.entries@[b].0@);
        }
        lemma_entries_all(core.toggles.entries@, old(core).toggles.entries@);
        assert(core@ == (CoreV { toggles: all_false(old(core)@.toggles), ..old(core)@ }));
    }
}

/// What registering a chord binding does: validation and parsing may
/// refuse the text, a chord already held is a duplicate, the host may
/// refuse the install, and otherwise the chord is recorded.  Every
/// failure leaves the state untouched.
pub open spec fn register_chord_spec(c: CoreV, env: OsEnv, b: BindingV) -> (
    CoreV,
    Result<(), ShortcutError>,
) {
    if !valid_shortcut(b.current, c.fn_platform) {
        (c, Err(ShortcutError::Invalid))
    } else {
        match parse_chord_spec(b.current) {
            None => (c, Err(ShortcutError::ParseFailed)),
            Some(ch) => if c.registered.contains_key(ch) {
                (c, Err(ShortcutError::AlreadyRegistered))
            } else if !env.chord_install_ok {
                (c, Err(ShortcutError::RegistrationRefused))
            } else {
                (
                    CoreV {
                        registered: c.registered.insert(
                            ch,
                            RegEntryV { binding_id: b.id, shortcut: b.current },
                        ),
                        ..c
                    },
                    Ok(()),
                )
            },
        }
    }
}

/// What releasing a chord binding does: the text must parse, and the
/// chord must be held.
pub open spec fn unregister_chord_spec(c: CoreV, b: BindingV) -> (
    CoreV,
    Result<(), ShortcutError>,
) {
    match parse_chord_spec(b.current) {
        None => (c, Err(ShortcutError::ParseFailed)),
        Some(ch) => if c.registered.contains_key(ch) {
            (CoreV { registered: c.registered.remove(ch), ..c }, Ok(()))
        } else {
            (c, Err(ShortcutError::NotFound))
        },
    }
}

/// What starting the native monitor does: nothing when it is already
/// running; otherwise permission is probed and prompted for, then the
/// install is attempted.  Every failure leaves the state untouched.
pub open spec fn ensure_monitor_spec(c: CoreV, env: OsEnv) -> (CoreV, Result<(), ShortcutError>) {
    if c.monitor_started {
        (c, Ok(()))
    } else if !env.accessibility_trusted && !env.prompt_grants {
        (c, Err(ShortcutError::PermissionDenied))
    } else if !env.monitor_install_ok {
        (c, Err(ShortcutError::MonitorInstallFailed))
    } else {
        (CoreV { monitor_started: true, ..c }, Ok(()))
    }
}

/// What registering a modifier-only binding does: the monitor is started
/// if need be, then the binding joins the monitor's table.
pub open spec fn register_fn_spec(c: CoreV, env: OsEnv, b: BindingV) -> (
    CoreV,
    Result<(), ShortcutError>,
) {
    let em = ensure_monitor_spec(c, env);
    match em.1 {
        Err(e) => (em.0, Err(e)),
        Ok(u) => (
            CoreV { fn_entries: em.0.fn_entries.insert(b.id, b.current), ..em.0 },
            Ok(()),
        ),
    }
}

/// What unregistering a modifier-only binding does: the entry leaves the
/// monitor's table, and when the last one goes the pressed flag clears.
pub open spec fn unregister_fn_spec(c: CoreV, id: Seq<char>) -> CoreV {
    if c.fn_entries.contains_key(id) {
        let m2 = c.fn_entries.remove(id);
        CoreV {
            fn_entries: m2,
            fn_pressed: if m2 == Map::<Seq<char>, Seq<char>>::empty() {
                false
            } else {
                c.fn_pressed
            },
            ..c
        }
    } else {
        c
    }
}

/// The router: the reserved function-key text goes to the monitor on the
/// platform that supports it, everything else to the chord registrar.
pub open spec fn register_binding_spec(c: CoreV, env: OsEnv, b: BindingV) -> (
    CoreV,
    Result<(), ShortcutError>,
) {
    if c.fn_platform && is_fn_text(b.current) {
        register_fn_spec(c, env, b)
    } else {
        register_chord_spec(c, env, b)
    }
}

/// The router for unregistration.
pub open spec fn unregister_binding_spec(c: CoreV, b: BindingV) -> (
    CoreV,
    Result<(), ShortcutError>,
) {
    if c.fn_platform && is_fn_text(b.current) {
        (unregister_fn_spec(c, b.id), Ok(()))
    } else {
        unregister_chord_spec(c, b)
    }
}

/// Registers a chord binding with the host hotkey table.
pub fn register_shortcut(core: &mut ShortcutCore, env: OsEnv, binding: &ShortcutBinding) -> (r:
    Result<(), ShortcutError>)
    requires
        old(core).wf(),
    ensures
        final(core).wf(),
        final(core)@ == register_chord_spec(old(core)@, env, binding@).0,
        r == register_chord_spec(old(core)@, env, binding@).1,
        final(core).settings == old(core).settings,
        final(core).monitor == old(core).monitor,
        final(core).toggles == old(core).toggles,
        final(core).actions == old(core).actions,
        final(core).fn_platform == old(core).fn_platform,
{
    if let Err(e) = validate_shortcut_string(binding.current_binding.as_str(), core.fn_platform) {
        return Err(e);
    }
    let chord = match parse_chord(binding.current_binding.as_str()) {
        Ok(c) => c,
        Err(e) => {
            return Err(e);
        },
    };
    if core.registrar.is_registered(&chord) {
        return Err(ShortcutError::AlreadyRegistered);
    }
    if !env.chord_install_ok {
        return Err(ShortcutError::RegistrationRefused);
    }
    core.registrar.install(
        RegEntry {
            chord,
            binding_id: binding.id.clone(),
            shortcut_string: binding.current_binding.clone(),
        },
    );
    Ok(())
}

/// Releases a chord binding from the host hotkey table.
pub fn unregister_shortcut(core: &mut ShortcutCore, binding: &ShortcutBinding) -> (r: Result<
    (),
    ShortcutError,
>)
    requires
        old(core).wf(),
    ensures
        final(core).wf(),
        final(core)@ == unregister_chord_spec(old(core)@, binding@).0,
        r == unregister_chord_spec(old(core)@, binding@).1,
        final(core).settings == old(core).settings,
        final(core).monitor == old(core).monitor,
        final(core).toggles == old(core).toggles,
        final(core).actions == old(core).actions,
        final(core).fn_platform == old(core).fn_platform,
{
    let chord = match parse_chord(binding.current_binding.as_str()) {
        Ok(c) => c,
        Err(e) => {
            return Err(e);
        },
    };
    if core.registrar.release(&chord) {
        Ok(())
    } else {
        proof {
            assert(core.registrar@ =~= old(core).registrar@);
        }
        Err(ShortcutError::NotFound)
    }
}

/// Starts the native monitor if it is not yet running, consulting the
/// permission gate first.
fn ensure_monitor_started(core: &mut ShortcutCore, env: OsEnv) -> (r: Result<(), ShortcutError>)
    requires
        old(core).wf(),
    ensures
        final(core).wf(),
        final(core)@ == ensure_monitor_spec(old(core)@, env).0,
        r == ensure_monitor_spec(old(core)@, env).1,
        final(core).settings == old(core).settings,
        final(core).registrar == old(core).registrar,
        final(core).toggles == old(core).toggles,
        final(core).actions == old(core).actions,
        final(core).fn_platform == old(core).fn_platform,
        final(core).monitor.entries == old(core).monitor.entries,
        final(core).monitor.fn_pressed == old(core).monitor.fn_pressed,
{
    if core.monitor.started {
        return Ok(());
    }
    let mut probe = env;
    if !crate::monitor::has_accessibility_permission(&probe) {
        let granted = crate::monitor::request_accessibility_permission(&mut probe);
        if !granted {
            return Err(ShortcutError::PermissionDenied);
        }
    }
    if !env.monitor_install_ok {
        return Err(ShortcutError::MonitorInstallFailed);
    }
    core.monitor.started = true;
    Ok(())
}

/// Registers a modifier-only binding with the monitor, starting the
/// monitor first when needed.  A failure leaves no partial state.
pub fn register_fn_binding(core: &mut ShortcutCore, env: OsEnv, binding: &ShortcutBinding) -> (r:
    Result<(), ShortcutError>)
    requires
        old(core).wf(),
    ensures
        final(core).wf(),
        final(core)@ == register_fn_spec(old(core)@, env, binding@).0,
        r == register_fn_spec(old(core)@, env, binding@).1,
        final(core).settings == old(core).settings,
        final(core).registrar == old(core).registrar,
        final(core).toggles == old(core).toggles,
        final(core).actions == old(core).actions,
        final(core).fn_platform == old(core).fn_platform,
{
    if let Err(e) = ensure_monitor_started(core, env) {
        return Err(e);
    }
    core.monitor.entries.insert(binding.id.clone(), binding.current_binding.clone());
    Ok(())
}

/// Unregisters a modifier-only binding; removing one that is absent is
/// not an error, and the pressed flag clears with the last entry.
pub fn unregister_fn_binding(core: &mut ShortcutCore, binding_id: &str) -> (r: Result<
    (),
    ShortcutError,
>)
    requires
        old(core).wf(),
    ensures
        final(core).wf(),
        final(core)@ == unregister_fn_spec(old(core)@, binding_id@),
        r == Ok::<(), ShortcutError>(()),
        final(core).settings == old(core).settings,
        final(core).registrar == old(core).registrar,
        final(core).toggles == old(core).toggles,
        final(core).actions == old(core).actions,
        final(core).fn_platform == old(core).fn_platform,
        final(core).monitor.started == old(core).monitor.started,
{
    let removed = core.monitor.entries.remove(binding_id);
    if removed {
        if core.monitor.entries.is_empty() {
            core.monitor.fn_pressed = false;
        }
    } else {
        proof {
            assert(core.monitor.entries@ =~= old(core).monitor.entries@);
        }
    }
    Ok(())
}

/// Registers a binding, routing it by its class: the reserved
/// function-key text to the monitor, every other text to the chord
/// registrar.
pub fn register_binding(core: &mut ShortcutCore, env: OsEnv, binding: &ShortcutBinding) -> (r:
    Result<(), ShortcutError>)
    requires
        old(core).wf(),
    ensures
        final(core).wf(),
        final(core)@ == register_binding_spec(old(core)@, env, binding@).0,
        r == register_binding_spec(old(core)@, env, binding@).1,
        final(core).settings == old(core).settings,
        final(core).toggles == old(core).toggles,
        final(core).actions == old(core).actions,
        final(core).fn_platform == old(core).fn_platform,
{
    if core.fn_platform && is_fn_binding(binding.current_binding.as_str()) {
        register_fn_binding(core, env, binding)
    } else {
        register_shortcut(core, env, binding)
    }
}

/// Unregisters a binding, routing it by its class.
pub fn unregister_binding(core: &mut ShortcutCore, binding: &ShortcutBinding) -> (r: Result<
    (),
    ShortcutError,
>)
    requires
        old(core).wf(),
    ensures
        final(core).wf(),
        final(core)@ == unregister_binding_spec(old(core)@, binding@).0,
        r == unregister_binding_spec(old(core)@, binding@).1,
        final(core).settings == old(core).settings,
        final(core).toggles == old(core).toggles,
        final(core).actions == old(core).actions,
        final(core).fn_platform == old(core).fn_platform,
{
    if core.fn_platform && is_fn_binding(binding.current_binding.as_str()) {
        unregister_fn_binding(core, binding.id.as_str())
    } else {
        unregister_shortcut(core, binding)
    }
}

/// The view of a binding-table entry sequence, in order.
pub open spec fn bindings_seq(s: Seq<(String, ShortcutBinding)>) -> Seq<BindingV> {
    s.map_values(|p: (String, ShortcutBinding)| p.1@)
}

/// What startup does: registers every non-dynamic binding in table
/// order, ignoring individual failures.
pub open spec fn init_fold(c: CoreV, bs: Seq<BindingV>, env: OsEnv) -> CoreV
    decreases bs.len(),
{
    if bs.len() == 0 {
        c
    } else {
        let c1 = init_fold(c, bs.drop_last(), env);
        if bs.last().dynamic {
            c1
        } else {
            register_binding_spec(c1, env, bs.last()).0
        }
    }
}

/// Registers every non-dynamic binding from the settings.  Dynamic
/// bindings are skipped: they are installed at runtime by whatever
/// action needs them.  A binding that fails to register is skipped too.
pub fn init_shortcuts(core: &mut ShortcutCore, env: OsEnv)
    requires
        old(core).wf(),
    ensures
        final(core).wf(),
        final(core)@ == init_fold(
            old(core)@,
            bindings_seq(old(core).settings.bindings.entries@),
            env,
        ),
        final(core).settings == old(core).settings,
        final(core).toggles == old(core).toggles,
        final(core).actions == old(core).actions,
        final(core).fn_platform == old(core).fn_platform,
{
    let ghost bs = bindings_seq(old(core).settings.bindings.entries@);
    let n = core.settings.bindings.entries.len();
    let mut i: usize = 0;
    while i < n
        invariant
            i <= n,
            core.wf(),
            n == core.settings.bindings.entries@.len(),
            core.settings == old(core).settings,
            core.toggles == old(core).toggles,
            core.actions == old(core).actions,
            core.fn_platform == old(core).fn_platform,
            bs == bindings_seq(core.settings.bindings.entries@),
            core@ == init_fold(old(core)@, bs.take(i as int), env),
        decreases n - i,
    {
        proof {
            assert(bs.take(i as int + 1).drop_last() =~= bs.take(i as int));
            assert(bs.take(i as int + 1).last() == bs[i as int]);
            assert(bs[i as int] == core.settings.bindings.entries@[i as int].1@);
        }
        let b = core.settings.bindings.entries[i].1.clone();
        if !b.dynamic {
            let _unused = register_binding(core, env, &b);
        }
        i += 1;
    }
    proof {
        assert(bs.take(n as int) =~= bs);
    }
}

/// What registering a dynamic binding does: the binding must exist and
/// be dynamic; any previous registration is dropped first, failures of
/// that drop ignored, so the operation is safe to repeat.
pub open spec fn register_dynamic_spec(c: CoreV, env: OsEnv, id: Seq<char>) -> (
    CoreV,
    Result<(), ShortcutError>,
) {
    if !c.bindings.contains_key(id) {
        (c, Err(ShortcutError::NotFound))
    } else {
        let b = c.bindings[id];
        if !b.dynamic {
            (c, Err(ShortcutError::NotDynamic))
        } else {
            register_binding_spec(unregister_binding_spec(c, b).0, env, b)
        }
    }
}

/// What unregistering a dynamic binding does.
pub open spec fn unregister_dynamic_spec(c: CoreV, id: Seq<char>) -> (
    CoreV,
    Result<(), ShortcutError>,
) {
    if !c.bindings.contains_key(id) {
        (c, Err(ShortcutError::NotFound))
    } else {
        unregister_binding_spec(c, c.bindings[id])
    }
}

/// Registers a dynamic binding at runtime.  The call is idempotent: any
/// live registration of the binding is dropped first (ignoring
/// failures), so an action may call this without knowing whether the
/// binding is currently live.
pub fn register_dynamic_binding(core: &mut ShortcutCore, env: OsEnv, binding_id: &str) -> (r:
    Result<(), ShortcutError>)
    requires
        old(core).wf(),
    ensures
        final(core).wf(),
        final(core)@ == register_dynamic_spec(old(core)@, env, binding_id@).0,
        r == register_dynamic_spec(old(core)@, env, binding_id@).1,
        final(core).settings == old(core).settings,
        final(core).toggles == old(core).toggles,
        final(core).actions == old(core).actions,
        final(core).fn_platform == old(core).fn_platform,
{
    let b = match core.settings.bindings.get(binding_id) {
        Some(b) => b.clone(),
        None => {
            return Err(ShortcutError::NotFound);
        },
    };
    if !b.dynamic {
        return Err(ShortcutError::NotDynamic);
    }
    let _unused = unregister_binding(core, &b);
    register_binding(core, env, &b)
}

/// Unregisters a dynamic binding at runtime.
pub fn unregister_dynamic_binding(core: &mut ShortcutCore, binding_id: &str) -> (r: Result<
    (),
    ShortcutError,
>)
    requires
        old(core).wf(),
    ensures
        final(core).wf(),
        final(core)@ == unregister_dynamic_spec(old(core)@, binding_id@).0,
        r == unregister_dynamic_spec(old(core)@, binding_id@).1,
        final(core).settings == old(core).settings,
        final(core).toggles == old(core).toggles,
        final(core).actions == old(core).actions,
        final(core).fn_platform == old(core).fn_platform,
{
    let b = match core.settings.bindings.get(binding_id) {
        Some(b) => b.clone(),
        None => {
            return Err(ShortcutError::NotFound);
        },
    };
    unregister_binding(core, &b)
}

/// The structured reply of the binding-editing endpoints.
pub struct BindingResponse {
    pub success: bool,
    pub binding: Option<ShortcutBinding>,
    pub error: Option<ShortcutError>,
}

/// The mathematical value of a binding response.
pub struct RespV {
    pub success: bool,
    pub binding: Option<BindingV>,
    pub error: Option<ShortcutError>,
}

impl View for BindingResponse {
    type V = RespV;

    open spec fn view(&self) -> RespV {
        RespV {
            success: self.success,
            binding: match self.binding {
                Some(b) => Some(b@),
                None => None,
            },
            error: self.error,
        }
    }
}

/// What editing a binding does.  The old registration is dropped best
/// effort; the new text must validate (an invalid text propagates as the
/// outer error); a registration failure is reported in the response and
/// leaves the stored binding untouched; on success the new text is
/// stored.
pub open spec fn change_binding_spec(c: CoreV, env: OsEnv, id: Seq<char>, text: Seq<char>) -> (
    CoreV,
    Result<RespV, ShortcutError>,
) {
    if !c.bindings.contains_key(id) {
        (
            c,
            Ok(
                RespV {
                    success: false,
                    binding: None,
                    error: Some(ShortcutError::NotFound),
                },
            ),
        )
    } else {
        let b = c.bindings[id];
        let c1 = unregister_binding_spec(c, b).0;
        if !valid_shortcut(text, c.fn_platform) {
            (c1, Err(ShortcutError::Invalid))
        } else {
            let nb = BindingV { current: text, ..b };
            let step = register_binding_spec(c1, env, nb);
            match step.1 {
                Err(e) => (
                    step.0,
                    Ok(RespV { success: false, binding: None, error: Some(e) }),
                ),
                Ok(u) => (
                    CoreV { bindings: step.0.bindings.insert(id, nb), ..step.0 },
                    Ok(RespV { success: true, binding: Some(nb), error: None }),
                ),
            }
        }
    }
}

/// Edits a binding: best-effort unregister of the old text, validation
/// and registration of the new one, and persistence only on success.
pub fn change_binding(core: &mut ShortcutCore, env: OsEnv, id: &str, binding: &str) -> (r: Result<
    BindingResponse,
    ShortcutError,
>)
    requires
        old(core).wf(),
    ensures
        final(core).wf(),
        final(core)@ == change_binding_spec(old(core)@, env, id@, binding@).0,
        (match r {
            Ok(resp) => change_binding_spec(old(core)@, env, id@, binding@).1 matches Ok(rv)
                && resp@ == rv,
            Err(e) => change_binding_spec(old(core)@, env, id@, binding@).1 == Err::<
                RespV,
                ShortcutError,
            >(e),
        }),
        final(core).settings == (AppSettings {
            bindings: final(core).settings.bindings,
            ..old(core).settings
        }),
        final(core).toggles == old(core).toggles,
        final(core).actions == old(core).actions,
        final(core).fn_platform == old(core).fn_platform,
{
    let b0 = match core.settings.bindings.get(id) {
        Some(b) => b.clone(),
        None => {
            return Ok(
                BindingResponse {
                    success: false,
                    binding: None,
                    error: Some(ShortcutError::NotFound),
                },
            );
        },
    };
    let _unused = unregister_binding(core, &b0);
    if let Err(e) = validate_shortcut_string(binding, core.fn_platform) {
        return Err(e);
    }
    let nb = ShortcutBinding { current_binding: String::from_str(binding), ..b0 };
    match register_binding(core, env, &nb) {
        Err(e) => Ok(BindingResponse { success: false, binding: None, error: Some(e) }),
        Ok(_unit) => {
            core.settings.bindings.insert(String::from_str(id), nb.clone());
            Ok(BindingResponse { success: true, binding: Some(nb), error: None })
        },
    }
}

/// What resetting a binding does: an edit back to the factory value.
pub open spec fn reset_binding_spec(c: CoreV, env: OsEnv, id: Seq<char>) -> (
    CoreV,
    Result<RespV, ShortcutError>,
) {
    if !c.bindings.contains_key(id) {
        (
            c,
            Ok(
                RespV {
                    success: false,
                    binding: None,
                    error: Some(ShortcutError::NotFound),
                },
            ),
        )
    } else {
        change_binding_spec(c, env, id, c.bindings[id].default)
    }
}

/// Resets a binding to its factory value.
pub fn reset_binding(core: &mut ShortcutCore, env: OsEnv, id: &str) -> (r: Result<
    BindingResponse,
    ShortcutError,
>)
    requires
        old(core).wf(),
    ensures
        final(core).wf(),
        final(core)@ == reset_binding_spec(old(core)@, env, id@).0,
        (match r {
            Ok(resp) => reset_binding_spec(old(core)@, env, id@).1 matches Ok(rv) && resp@ == rv,
            Err(e) => reset_binding_spec(old(core)@, env, id@).1 == Err::<RespV, ShortcutError>(e),
        }),
        final(core).settings == (AppSettings {
            bindings: final(core).settings.bindings,
            ..old(core).settings
        }),
        final(core).toggles == old(core).toggles,
        final(core).actions == old(core).actions,
        final(core).fn_platform == old(core).fn_platform,
{
    let dflt = match core.settings.bindings.get(id) {
        Some(b) => b.default_binding.clone(),
        None => {
            return Ok(
                BindingResponse {
                    success: false,
                    binding: None,
                    error: Some(ShortcutError::NotFound),
                },
            );
        },
    };
    change_binding(core, env, id, dflt.as_str())
}

/// What suspending a binding does: its registration is dropped, the
/// stored text untouched; an unknown id is a no-op.
pub open spec fn suspend_binding_spec(c: CoreV, id: Seq<char>) -> (
    CoreV,
    Result<(), ShortcutError>,
) {
    if !c.bindings.contains_key(id) {
        (c, Ok(()))
    } else {
        unregister_binding_spec(c, c.bindings[id])
    }
}

/// Temporarily unregisters a binding while the user edits it, so that
/// recording keystrokes does not fire the action.
pub fn suspend_binding(core: &mut ShortcutCore, id: &str) -> (r: Result<(), ShortcutError>)
    requires
        old(core).wf(),
    ensures
        final(core).wf(),
        final(core)@ == suspend_binding_spec(old(core)@, id@).0,
        r == suspend_binding_spec(old(core)@, id@).1,
        final(core).settings == old(core).settings,
        final(core).toggles == old(core).toggles,
        final(core).actions == old(core).actions,
        final(core).fn_platform == old(core).fn_platform,
{
    let b = match core.settings.bindings.get(id) {
        Some(b) => b.clone(),
        None => {
            return Ok(());
        },
    };
    unregister_binding(core, &b)
}

/// What resuming a binding does: the stored text is registered again;
/// an unknown id is a no-op.
pub open spec fn resume_binding_spec(c: CoreV, env: OsEnv, id: Seq<char>) -> (
    CoreV,
    Result<(), ShortcutError>,
) {
    if !c.bindings.contains_key(id) {
        (c, Ok(()))
    } else {
        register_binding_spec(c, env, c.bindings[id])
    }
}

/// Re-registers a binding after the user has finished editing it.
pub fn resume_binding(core: &mut ShortcutCore, env: OsEnv, id: &str) -> (r: Result<
    (),
    ShortcutError,
>)
    requires
        old(core).wf(),
    ensures
        final(core).wf(),
        final(core)@ == resume_binding_spec(old(core)@, env, id@).0,
        r == resume_binding_spec(old(core)@, env, id@).1,
        final(core).settings == old(core).settings,
        final(core).toggles == old(core).toggles,
        final(core).actions == old(core).actions,
        final(core).fn_platform == old(core).fn_platform,
{
    let b = match core.settings.bindings.get(id) {
        Some(b) => b.clone(),
        None => {
            return Ok(());
        },
    };
    register_binding(core, env, &b)
}

/// Two entry sequences with the same keys, the second arbitrary and the
/// first all-false, have the all-false contents of the second.
proof fn lemma_entries_all(s: Seq<(String, bool)>, t: Seq<(String, bool)>)
    requires
        s.len() == t.len(),
        forall|j: int| 0 <= j < s.len() ==> s[j].0@ == t[j].0@,
        forall|j: int| 0 <= j < s.len() ==> s[j].1 == false,
    ensures
        crate::table::entries_map(s) == all_false(crate::table::entries_map(t)),
    decreases s.len(),
{
    if s.len() == 0 {
        assert(crate::table::entries_map(s) =~= all_false(crate::table::entries_map(t)));
    } else {
        assert(forall|j: int| 0 <= j < s.len() - 1 ==> s.drop_last()[j].0@ == t.drop_last()[j].0@);
        assert(forall|j: int| 0 <= j < s.len() - 1 ==> s.drop_last()[j].1 == false);
        lemma_entries_all(s.drop_last(), t.drop_last());
        assert(crate::table::entries_map(s) =~= all_false(crate::table::entries_map(t)));
    }
}

} // verus!
