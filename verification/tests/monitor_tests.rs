use shortcut_core::errors::ShortcutError;
use shortcut_core::monitor::{
    has_accessibility_permission, is_wayland, request_accessibility_permission, OsEnv,
};
use shortcut_core::settings::{
    AppSettings, ClipboardHandling, OverlayPosition, PasteMethod, ShortcutBinding, SoundTheme,
};
use shortcut_core::shortcut::{
    handle_monitor_event, register_binding, register_fn_binding, unregister_fn_binding,
    ActionCall, ActionKind, MonitorEvent, ShortcutCore, FUNCTION_MODIFIER_FLAG,
};
use shortcut_core::table::Table;

fn base_settings() -> AppSettings {
    AppSettings {
        bindings: Table::new(),
        push_to_talk: true,
        audio_feedback: false,
        sound_theme: SoundTheme::Marimba,
        translate_to_english: false,
        selected_language: String::from("en"),
        overlay_position: OverlayPosition::Bottom,
        debug_mode: false,
        start_hidden: false,
        autostart_enabled: false,
        custom_words: Vec::new(),
        paste_method: PasteMethod::CtrlV,
        clipboard_handling: ClipboardHandling::DontModify,
        post_process_enabled: false,
        post_process_provider_id: String::from("custom"),
        post_process_providers: Vec::new(),
        post_process_prompts: Vec::new(),
        post_process_selected_prompt_id: None,
        post_process_api_keys: Table::new(),
        post_process_models: Table::new(),
        mute_while_recording: false,
    }
}

fn binding(id: &str, cur: &str, dynamic: bool) -> ShortcutBinding {
    ShortcutBinding {
        id: String::from(id),
        current_binding: String::from(cur),
        default_binding: String::from(cur),
        dynamic,
    }
}

fn good_env() -> OsEnv {
    OsEnv {
        accessibility_trusted: true,
        prompt_grants: true,
        monitor_install_ok: true,
        chord_install_ok: true,
    }
}

fn fn_core(ptt: bool) -> ShortcutCore {
    let mut s = base_settings();
    s.push_to_talk = ptt;
    let b = binding("transcribe", "fn", false);
    s.bindings.insert(b.id.clone(), b);
    ShortcutCore::new(s, vec![String::from("transcribe")], true)
}

fn log(calls: &Vec<ActionCall>) -> Vec<(String, ActionKind)> {
    calls.iter().map(|c| (c.binding_id.clone(), c.kind)).collect()
}

#[test]
fn fn_binding_scenario_with_duplicate_suppressed() {
    let mut core = fn_core(true);
    let b = binding("transcribe", "fn", false);
    register_binding(&mut core, good_env(), &b).unwrap();
    assert!(core.monitor.started);
    let mut all: Vec<(String, ActionKind)> = Vec::new();
    for flags in [FUNCTION_MODIFIER_FLAG, 0, FUNCTION_MODIFIER_FLAG, FUNCTION_MODIFIER_FLAG, 0] {
        let calls = handle_monitor_event(&mut core, MonitorEvent::FlagsChanged(flags));
        all.extend(log(&calls));
    }
    assert_eq!(
        all,
        vec![
            (String::from("transcribe"), ActionKind::Start),
            (String::from("transcribe"), ActionKind::Stop),
            (String::from("transcribe"), ActionKind::Start),
            (String::from("transcribe"), ActionKind::Stop),
        ]
    );
}

#[test]
fn non_flag_events_are_ignored() {
    let mut core = fn_core(true);
    let b = binding("transcribe", "fn", false);
    register_binding(&mut core, good_env(), &b).unwrap();
    let calls = handle_monitor_event(&mut core, MonitorEvent::Other);
    assert!(calls.is_empty());
    assert!(!core.monitor.fn_pressed);
}

#[test]
fn other_modifier_bits_do_not_press_the_fn_key() {
    let mut core = fn_core(true);
    let b = binding("transcribe", "fn", false);
    register_binding(&mut core, good_env(), &b).unwrap();
    let calls = handle_monitor_event(&mut core, MonitorEvent::FlagsChanged(0x20000));
    assert!(calls.is_empty());
    assert!(!core.monitor.fn_pressed);
}

#[test]
fn permission_denied_leaves_no_partial_state_and_retry_succeeds() {
    let mut core = fn_core(true);
    let b = binding("transcribe", "fn", false);
    let no_permission = OsEnv {
        accessibility_trusted: false,
        prompt_grants: false,
        monitor_install_ok: true,
        chord_install_ok: true,
    };
    let r = register_fn_binding(&mut core, no_permission, &b);
    assert_eq!(r, Err(ShortcutError::PermissionDenied));
    assert!(!core.monitor.started);
    assert!(core.monitor.entries.entries.is_empty());
    let r = register_fn_binding(&mut core, good_env(), &b);
    assert_eq!(r, Ok(()));
    assert!(core.monitor.started);
    assert_eq!(core.monitor.entries.entries.len(), 1);
}

#[test]
fn prompt_grant_is_enough_to_start_the_monitor() {
    let mut core = fn_core(true);
    let b = binding("transcribe", "fn", false);
    let prompt_only = OsEnv {
        accessibility_trusted: false,
        prompt_grants: true,
        monitor_install_ok: true,
        chord_install_ok: true,
    };
    assert_eq!(register_fn_binding(&mut core, prompt_only, &b), Ok(()));
    assert!(core.monitor.started);
}

#[test]
fn monitor_install_failure_is_reported() {
    let mut core = fn_core(true);
    let b = binding("transcribe", "fn", false);
    let env = OsEnv {
        accessibility_trusted: true,
        prompt_grants: true,
        monitor_install_ok: false,
        chord_install_ok: true,
    };
    assert_eq!(register_fn_binding(&mut core, env, &b), Err(ShortcutError::MonitorInstallFailed));
    assert!(!core.monitor.started);
    assert!(core.monitor.entries.entries.is_empty());
}

#[test]
fn unregistering_last_fn_binding_clears_the_pressed_flag() {
    let mut core = fn_core(true);
    let b = binding("transcribe", "fn", false);
    register_binding(&mut core, good_env(), &b).unwrap();
    let calls = handle_monitor_event(&mut core, MonitorEvent::FlagsChanged(FUNCTION_MODIFIER_FLAG));
    assert_eq!(calls.len(), 1);
    assert!(core.monitor.fn_pressed);
    unregister_fn_binding(&mut core, "transcribe").unwrap();
    assert!(!core.monitor.fn_pressed);
    register_binding(&mut core, good_env(), &b).unwrap();
    let calls = handle_monitor_event(&mut core, MonitorEvent::FlagsChanged(FUNCTION_MODIFIER_FLAG));
    assert_eq!(log(&calls), vec![(String::from("transcribe"), ActionKind::Start)]);
}

#[test]
fn events_without_bindings_only_latch_the_flag() {
    let mut core = fn_core(true);
    let b = binding("transcribe", "fn", false);
    register_binding(&mut core, good_env(), &b).unwrap();
    unregister_fn_binding(&mut core, "transcribe").unwrap();
    let calls = handle_monitor_event(&mut core, MonitorEvent::FlagsChanged(FUNCTION_MODIFIER_FLAG));
    assert!(calls.is_empty());
    assert!(core.monitor.fn_pressed);
}

#[test]
fn wayland_detection_reads_either_signal() {
    assert!(is_wayland(true, None));
    assert!(is_wayland(false, Some("wayland")));
    assert!(is_wayland(false, Some("WAYLAND")));
    assert!(!is_wayland(false, Some("x11")));
    assert!(!is_wayland(false, None));
}

#[test]
fn permission_gate_probes_and_prompts() {
    let env = OsEnv {
        accessibility_trusted: false,
        prompt_grants: true,
        monitor_install_ok: true,
        chord_install_ok: true,
    };
    assert!(!has_accessibility_permission(&env));
    let mut env2 = env;
    assert!(request_accessibility_permission(&mut env2));
    assert!(has_accessibility_permission(&env2));
    let mut refused = OsEnv { prompt_grants: false, ..env };
    assert!(!request_accessibility_permission(&mut refused));
    assert!(!has_accessibility_permission(&refused));
}
