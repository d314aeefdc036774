//! The laws of the shortcut core that relate several operations: what a
//! press-release pair delivers in each run-mode, toggle parity, the
//! idempotence of dynamic registration, and the round trips of
//! suspend/resume and edit/edit-back.

use vstd::prelude::*;

use crate::chord::{lemma_modifier_groups, parse_chord_spec, scan_tokens};
use crate::monitor::OsEnv;
use crate::registrar::RegEntryV;
use crate::settings::BindingV;
use crate::shortcut::{
    all_false, change_binding_spec, dispatch_spec, register_binding_spec, register_dynamic_spec,
    resume_binding_spec, suspend_binding_spec, unregister_binding_spec, ActionKind, CallV, CoreV,
};
use crate::text::{canon_token, split_plus, trim_back, trim_front};
use crate::validate::{is_fn_text, is_modifier_token, valid_shortcut};
use crate::ShortcutState;

verus! {

/// A successful scan whose key is set found it in some non-modifier
/// token.
proof fn lemma_scan_key_witness(toks: Seq<Seq<char>>, k: Seq<char>)
    requires
        scan_tokens(toks) matches Some(acc) && acc.key == Some(k),
    ensures
        exists|i: int|
            0 <= i < toks.len() && !is_modifier_token(toks[i]) && canon_token(toks[i]) == k,
    decreases toks.len(),
{
    let acc = scan_tokens(toks)->Some_0;
    let prev = scan_tokens(toks.drop_last())->Some_0;
    let t = toks.last();
    lemma_modifier_groups(t);
    if is_modifier_token(t) || prev.key is Some {
        lemma_scan_key_witness(toks.drop_last(), k);
        let i = choose|i: int|
            0 <= i < toks.drop_last().len() && !is_modifier_token(toks.drop_last()[i])
                && canon_token(toks.drop_last()[i]) == k;
        assert(toks[i] == toks.drop_last()[i]);
    } else {
        assert(toks[toks.len() - 1] == t);
    }
}

/// A shortcut string that parses into a chord passes validation on any
/// platform.
pub proof fn lemma_parse_implies_valid(s: Seq<char>, fn_platform: bool)
    requires
        parse_chord_spec(s) is Some,
    ensures
        valid_shortcut(s, fn_platform),
{
    let acc = scan_tokens(split_plus(s))->Some_0;
    let k = acc.key->0;
    lemma_scan_key_witness(split_plus(s), k);
    let i = choose|i: int|
        0 <= i < split_plus(s).len() && !is_modifier_token(split_plus(s)[i]) && canon_token(
            split_plus(s)[i],
        ) == k;
    if s.len() == 0 {
        assert(split_plus(s) == seq![Seq::<char>::empty()]);
        assert(split_plus(s)[i] == Seq::<char>::empty());
        assert(trim_front(Seq::<char>::empty()) == Seq::<char>::empty());
        assert(trim_back(Seq::<char>::empty()) == Seq::<char>::empty());
        assert(canon_token(Seq::<char>::empty()) =~= Seq::<char>::empty());
    }
}

/// In push-to-talk mode a press-release pair delivers exactly one start
/// and then one stop, and the toggle table is never consulted nor
/// changed.
pub proof fn lemma_ptt_press_release(c: CoreV, id: Seq<char>, sc: Seq<char>)
    requires
        c.push_to_talk,
        c.actions.contains(id),
    ensures
        dispatch_spec(c, id, sc, ShortcutState::Pressed).0 == c,
        dispatch_spec(c, id, sc, ShortcutState::Pressed).1 == seq![
            CallV { id, shortcut: sc, kind: ActionKind::Start },
        ],
        dispatch_spec(c, id, sc, ShortcutState::Released).0 == c,
        dispatch_spec(c, id, sc, ShortcutState::Released).1 == seq![
            CallV { id, shortcut: sc, kind: ActionKind::Stop },
        ],
{
}

/// In push-to-talk mode the toggle table is never consulted: the calls
/// delivered for any event are the same whatever the table holds, and
/// the table itself never changes.
pub proof fn lemma_ptt_independent_of_toggles(
    c: CoreV,
    other: Map<Seq<char>, bool>,
    id: Seq<char>,
    sc: Seq<char>,
    st: ShortcutState,
)
    requires
        c.push_to_talk,
    ensures
        dispatch_spec((CoreV { toggles: other, ..c }), id, sc, st).1 == dispatch_spec(
            c,
            id,
            sc,
            st,
        ).1,
        dispatch_spec(c, id, sc, st).0.toggles == c.toggles,
{
}

/// In toggle mode, a press-release pair starting from an inactive
/// binding delivers exactly one start: the press fires it and sets the
/// flag, the release is ignored.  The matching stop comes with the next
/// press.
pub proof fn lemma_toggle_press_release(c: CoreV, id: Seq<char>, sc: Seq<char>)
    requires
        !c.push_to_talk,
        c.actions.contains(id),
        !(c.toggles.contains_key(id) && c.toggles[id]),
    ensures
        ({
            let p = dispatch_spec(c, id, sc, ShortcutState::Pressed);
            p.1 == seq![CallV { id, shortcut: sc, kind: ActionKind::Start }] && p.0.toggles
                == c.toggles.insert(id, true) && dispatch_spec(
                p.0,
                id,
                sc,
                ShortcutState::Released,
            ) == (p.0, Seq::<CallV>::empty())
        }),
{
}

/// The state after `n` presses of one binding.
pub open spec fn press_n(c: CoreV, id: Seq<char>, sc: Seq<char>, n: nat) -> CoreV
    decreases n,
{
    if n == 0 {
        c
    } else {
        dispatch_spec(press_n(c, id, sc, (n - 1) as nat), id, sc, ShortcutState::Pressed).0
    }
}

/// Toggle parity: starting from an inactive binding in toggle mode, the
/// `n`-th press leaves the flag set exactly when `n` is odd, and fires
/// a start exactly when `n` is odd (a stop otherwise).
pub proof fn lemma_toggle_parity(c: CoreV, id: Seq<char>, sc: Seq<char>, n: nat)
    requires
        !c.push_to_talk,
        c.actions.contains(id),
        !(c.toggles.contains_key(id) && c.toggles[id]),
    ensures
        n > 0 ==> press_n(c, id, sc, n).toggles.contains_key(id) && press_n(
            c,
            id,
            sc,
            n,
        ).toggles[id] == (n % 2 == 1),
        n > 0 ==> dispatch_spec(press_n(c, id, sc, (n - 1) as nat), id, sc, ShortcutState::Pressed).1
            == seq![
            CallV {
                id,
                shortcut: sc,
                kind: if n % 2 == 1 {
                    ActionKind::Start
                } else {
                    ActionKind::Stop
                },
            },
        ],
        press_n(c, id, sc, n).push_to_talk == c.push_to_talk,
        press_n(c, id, sc, n).actions == c.actions,
    decreases n,
{
    if n > 0 {
        lemma_toggle_parity(c, id, sc, (n - 1) as nat);
    }
}

/// After a cancel reset, the next press of any binding in toggle mode
/// fires a start.
pub proof fn lemma_cancel_then_press(c: CoreV, id: Seq<char>, sc: Seq<char>)
    requires
        !c.push_to_talk,
        c.actions.contains(id),
    ensures
        ({
            let c1 = CoreV { toggles: all_false(c.toggles), ..c };
            dispatch_spec(c1, id, sc, ShortcutState::Pressed).1 == seq![
                CallV { id, shortcut: sc, kind: ActionKind::Start },
            ]
        }),
{
}

/// After a successful edit, the stored binding carries the new text.
pub proof fn lemma_change_binding_updates(c: CoreV, env: OsEnv, id: Seq<char>, text: Seq<char>)
    requires
        change_binding_spec(c, env, id, text).1 matches Ok(rv) && rv.success,
    ensures
        change_binding_spec(c, env, id, text).0.bindings.contains_key(id),
        change_binding_spec(c, env, id, text).0.bindings[id].current == text,
{
}

/// Equality of everything the dispatcher and the registries observe; the
/// monitor's latched pressed flag and its installed-token flag are
/// process-lifetime artifacts and deliberately not part of it.
pub open spec fn same_shortcut_state(a: CoreV, b: CoreV) -> bool {
    a.bindings == b.bindings && a.push_to_talk == b.push_to_talk && a.registered == b.registered
        && a.fn_entries == b.fn_entries && a.toggles == b.toggles && a.actions == b.actions
        && a.fn_platform == b.fn_platform
}

/// The binding's registration is installed under its own route, with its
/// own identity.
pub open spec fn binding_installed(c: CoreV, b: BindingV) -> bool {
    if c.fn_platform && is_fn_text(b.current) {
        c.fn_entries.contains_key(b.id) && c.fn_entries[b.id] == b.current
    } else {
        parse_chord_spec(b.current) matches Some(ch) && c.registered.contains_key(ch)
            && c.registered[ch] == RegEntryV { binding_id: b.id, shortcut: b.current }
    }
}

/// The binding does not also appear under the other route.
pub open spec fn binding_clean(c: CoreV, b: BindingV) -> bool {
    if c.fn_platform && is_fn_text(b.current) {
        true
    } else {
        !c.fn_entries.contains_key(b.id)
    }
}

/// Suspending and then resuming a binding restores the registration
/// state exactly; when the function key was not latched down, the whole
/// core state is restored.
pub proof fn lemma_suspend_resume_round_trip(c: CoreV, env: OsEnv, id: Seq<char>)
    requires
        c.bindings.contains_key(id),
        c.bindings[id].id == id,
        binding_installed(c, c.bindings[id]),
        env.chord_install_ok,
        (c.fn_platform && is_fn_text(c.bindings[id].current)) ==> c.monitor_started,
    ensures
        suspend_binding_spec(c, id).1 is Ok,
        resume_binding_spec(suspend_binding_spec(c, id).0, env, id).1 is Ok,
        same_shortcut_state(resume_binding_spec(suspend_binding_spec(c, id).0, env, id).0, c),
        !c.fn_pressed ==> resume_binding_spec(suspend_binding_spec(c, id).0, env, id).0 == c,
{
    let b = c.bindings[id];
    let c1 = suspend_binding_spec(c, id).0;
    if c.fn_platform && is_fn_text(b.current) {
        let m2 = c.fn_entries.remove(b.id);
        assert(m2.insert(b.id, b.current) =~= c.fn_entries);
        let c2 = resume_binding_spec(c1, env, id).0;
        assert(same_shortcut_state(c2, c));
        if !c.fn_pressed {
            assert(c2 =~= c);
        }
    } else {
        let ch = parse_chord_spec(b.current)->Some_0;
        lemma_parse_implies_valid(b.current, c.fn_platform);
        assert(c.registered.remove(ch).insert(
            ch,
            RegEntryV { binding_id: b.id, shortcut: b.current },
        ) =~= c.registered);
        let c2 = resume_binding_spec(c1, env, id).0;
        assert(same_shortcut_state(c2, c));
        assert(c2 =~= c);
    }
}

/// Registering a dynamic binding twice in a row with the same inputs
/// succeeds again and leaves the registration state of the first call:
/// exactly one live registration remains.
pub proof fn lemma_register_dynamic_idempotent(c: CoreV, env: OsEnv, id: Seq<char>)
    requires
        register_dynamic_spec(c, env, id).1 is Ok,
    ensures
        ({
            let c1 = register_dynamic_spec(c, env, id).0;
            let second = register_dynamic_spec(c1, env, id);
            second.1 is Ok && same_shortcut_state(second.0, c1) && (!c1.fn_pressed ==> second.0
                == c1)
        }),
{
    let b = c.bindings[id];
    let c1 = register_dynamic_spec(c, env, id).0;
    let cu = unregister_binding_spec(c, b).0;
    if c.fn_platform && is_fn_text(b.current) {
        assert(c1.fn_entries == cu.fn_entries.insert(b.id, b.current));
        assert(c1.fn_entries.remove(b.id) =~= cu.fn_entries.remove(b.id));
        assert(c1.fn_entries.remove(b.id).insert(b.id, b.current) =~= c1.fn_entries);
        let c1u = unregister_binding_spec(c1, b).0;
        let second = register_dynamic_spec(c1, env, id);
        assert(second.1 is Ok);
        assert(same_shortcut_state(second.0, c1));
        if !c1.fn_pressed {
            assert(second.0 =~= c1);
        }
    } else {
        let ch = parse_chord_spec(b.current)->Some_0;
        assert(c1.registered == cu.registered.insert(
            ch,
            RegEntryV { binding_id: b.id, shortcut: b.current },
        ));
        assert(c1.registered.remove(ch) =~= cu.registered.remove(ch));
        assert(cu.registered.remove(ch) =~= cu.registered);
        assert(c1.registered.remove(ch).insert(
            ch,
            RegEntryV { binding_id: b.id, shortcut: b.current },
        ) =~= c1.registered);
        let second = register_dynamic_spec(c1, env, id);
        assert(second.1 is Ok);
        assert(same_shortcut_state(second.0, c1));
        assert(second.0 =~= c1);
    }
}

/// Editing a binding and then editing it back to its old text restores
/// the registration state: the stored text, the chord table and the
/// monitor's entries all return to what they were, and the old shortcut
/// works again.
pub proof fn lemma_change_binding_round_trip(c: CoreV, env: OsEnv, id: Seq<char>, s: Seq<char>)
    requires
        c.bindings.contains_key(id),
        c.bindings[id].id == id,
        binding_installed(c, c.bindings[id]),
        binding_clean(c, c.bindings[id]),
        env.chord_install_ok,
        env.accessibility_trusted,
        env.monitor_install_ok,
        change_binding_spec(c, env, id, s).1 matches Ok(rv) && rv.success,
    ensures
        ({
            let c1 = change_binding_spec(c, env, id, s).0;
            let back = change_binding_spec(c1, env, id, c.bindings[id].current);
            back.1 matches Ok(rv2) && rv2.success && same_shortcut_state(back.0, c)
        }),
{
    let b = c.bindings[id];
    let old_t = b.current;
    let nb = BindingV { current: s, ..b };
    let cu = unregister_binding_spec(c, b).0;
    let cr = register_binding_spec(cu, env, nb).0;
    let c1 = change_binding_spec(c, env, id, s).0;
    assert(c1 == (CoreV { bindings: cr.bindings.insert(id, nb), ..cr }));
    assert(c1.bindings[id] == nb);
    let nb2 = BindingV { current: old_t, ..nb };
    assert(nb2 == b);
    let c1u = unregister_binding_spec(c1, nb).0;
    if c.fn_platform && is_fn_text(old_t) {
        assert(cu.fn_entries == c.fn_entries.remove(b.id));
        assert(valid_shortcut(old_t, c.fn_platform));
        if c.fn_platform && is_fn_text(s) {
            // both routes through the monitor
            assert(cr.fn_entries == cu.fn_entries.insert(id, s));
            assert(c1u.fn_entries == cr.fn_entries.remove(id));
            assert(c1u.fn_entries =~= c.fn_entries.remove(id));
            let back = change_binding_spec(c1, env, id, old_t);
            let cb = register_binding_spec(c1u, env, b).0;
            assert(cb.fn_entries =~= c.fn_entries);
            assert(back.0.bindings =~= c.bindings);
            assert(back.1 matches Ok(rv2) && rv2.success);
            assert(same_shortcut_state(back.0, c));
        } else {
            // the old text through the monitor, the new one a chord
            let chs = parse_chord_spec(s)->Some_0;
            assert(cr.registered == cu.registered.insert(
                chs,
                RegEntryV { binding_id: id, shortcut: s },
            ));
            assert(cu.registered == c.registered);
            assert(!c.registered.contains_key(chs));
            assert(c1u.registered =~= c.registered);
            assert(c1u.fn_entries == c.fn_entries.remove(id));
            let back = change_binding_spec(c1, env, id, old_t);
            let cb = register_binding_spec(c1u, env, b).0;
            assert(cb.fn_entries =~= c.fn_entries);
            assert(cb.registered =~= c.registered);
            assert(back.0.bindings =~= c.bindings);
            assert(back.1 matches Ok(rv2) && rv2.success);
            assert(same_shortcut_state(back.0, c));
        }
    } else {
        let chb = parse_chord_spec(old_t)->Some_0;
        assert(cu.registered == c.registered.remove(chb));
        assert(cu.fn_entries == c.fn_entries);
        lemma_parse_implies_valid(old_t, c.fn_platform);
        if c.fn_platform && is_fn_text(s) {
            // the old text a chord, the new one through the monitor
            assert(cr.fn_entries == c.fn_entries.insert(id, s));
            assert(cr.registered == cu.registered);
            assert(c1u.fn_entries =~= c.fn_entries);
            assert(c1u.registered == c.registered.remove(chb));
            let back = change_binding_spec(c1, env, id, old_t);
            let cb = register_binding_spec(c1u, env, b).0;
            assert(cb.registered =~= c.registered);
            assert(cb.fn_entries =~= c.fn_entries);
            assert(back.0.bindings =~= c.bindings);
            assert(back.1 matches Ok(rv2) && rv2.success);
            assert(same_shortcut_state(back.0, c));
        } else {
            // both routes through the chord registrar
            let chs = parse_chord_spec(s)->Some_0;
            assert(cr.registered == cu.registered.insert(
                chs,
                RegEntryV { binding_id: id, shortcut: s },
            ));
            assert(!cu.registered.contains_key(chs));
            assert(c1u.registered == cr.registered.remove(chs));
            assert(c1u.registered =~= c.registered.remove(chb).remove(chs));
            assert(c1u.registered =~= c.registered.remove(chb));
            assert(!c1u.registered.contains_key(chb));
            let back = change_binding_spec(c1, env, id, old_t);
            let cb = register_binding_spec(c1u, env, b).0;
            assert(cb.registered =~= c.registered);
            assert(cb.fn_entries == c.fn_entries);
            assert(back.0.bindings =~= c.bindings);
            assert(back.1 matches Ok(rv2) && rv2.success);
            assert(same_shortcut_state(back.0, c));
        }
    }
}

} // verus!

