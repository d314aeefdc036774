use shortcut_core::chord::parse_chord;
use shortcut_core::errors::ShortcutError;
use shortcut_core::monitor::OsEnv;
use shortcut_core::settings::{
    change_ptt_setting, AppSettings, ClipboardHandling, OverlayPosition, PasteMethod,
    ShortcutBinding, SoundTheme,
};
use shortcut_core::shortcut::{
    change_binding, dispatch_binding_event, init_shortcuts, register_binding,
    register_dynamic_binding, reset_binding, resume_binding, suspend_binding,
    unregister_dynamic_binding, ActionCall, ActionKind, ShortcutCore,
};
use shortcut_core::table::Table;
use shortcut_core::ShortcutState;

fn base_settings() -> AppSettings {
    AppSettings {
        bindings: Table::new(),
        push_to_talk: true,
        audio_feedback: false,
        sound_theme: SoundTheme::Marimba,
        translate_to_english: false,
        selected_language: String::from("en"),
        overlay_position: OverlayPosition::Bottom,
        debug_mode: false,
        start_hidden: false,
        autostart_enabled: false,
        custom_words: Vec::new(),
        paste_method: PasteMethod::CtrlV,
        clipboard_handling: ClipboardHandling::DontModify,
        post_process_enabled: false,
        post_process_provider_id: String::from("custom"),
        post_process_providers: Vec::new(),
        post_process_prompts: Vec::new(),
        post_process_selected_prompt_id: None,
        post_process_api_keys: Table::new(),
        post_process_models: Table::new(),
        mute_while_recording: false,
    }
}

fn binding(id: &str, cur: &str, dynamic: bool) -> ShortcutBinding {
    ShortcutBinding {
        id: String::from(id),
        current_binding: String::from(cur),
        default_binding: String::from(cur),
        dynamic,
    }
}

fn good_env() -> OsEnv {
    OsEnv {
        accessibility_trusted: true,
        prompt_grants: true,
        monitor_install_ok: true,
        chord_install_ok: true,
    }
}

fn core_with(bindings: Vec<ShortcutBinding>, ptt: bool, fn_platform: bool) -> ShortcutCore {
    let mut s = base_settings();
    s.push_to_talk = ptt;
    let mut actions: Vec<String> = Vec::new();
    for b in bindings {
        actions.push(b.id.clone());
        s.bindings.insert(b.id.clone(), b);
    }
    ShortcutCore::new(s, actions, fn_platform)
}

fn log(calls: &Vec<ActionCall>) -> Vec<(String, ActionKind)> {
    calls.iter().map(|c| (c.binding_id.clone(), c.kind)).collect()
}

fn is_registered_text(core: &ShortcutCore, text: &str) -> bool {
    let ch = parse_chord(text).unwrap();
    core.registrar.is_registered(&ch)
}

fn press_registered(
    core: &mut ShortcutCore,
    text: &str,
    state: ShortcutState,
) -> Vec<ActionCall> {
    let ch = parse_chord(text).unwrap();
    let mut found: Option<(String, String)> = None;
    for e in core.registrar.entries.iter() {
        if e.chord.chord_eq(&ch) {
            found = Some((e.binding_id.clone(), e.shortcut_string.clone()));
        }
    }
    let (id, sc) = found.expect("chord not registered");
    dispatch_binding_event(core, &id, &sc, state)
}

#[test]
fn change_binding_persists_the_new_text() {
    let mut core = core_with(vec![binding("transcribe", "ctrl+shift+space", false)], true, false);
    resume_binding(&mut core, good_env(), "transcribe").unwrap();
    let resp = change_binding(&mut core, good_env(), "transcribe", "alt+x").unwrap();
    assert!(resp.success);
    assert!(resp.error.is_none());
    assert!(core.settings.bindings.contains("transcribe"));
    let stored = core.settings.bindings.get("transcribe").unwrap();
    assert_eq!(stored.current_binding, "alt+x");
    assert!(is_registered_text(&core, "alt+x"));
    assert!(!is_registered_text(&core, "ctrl+shift+space"));
}

#[test]
fn change_binding_to_invalid_text_is_an_error() {
    let mut core = core_with(vec![binding("transcribe", "f5", false)], true, false);
    assert!(matches!(
        change_binding(&mut core, good_env(), "transcribe", ""),
        Err(ShortcutError::Invalid)
    ));
    assert!(matches!(
        change_binding(&mut core, good_env(), "transcribe", "ctrl+shift"),
        Err(ShortcutError::Invalid)
    ));
}

#[test]
fn change_binding_reports_parse_failure_in_the_response() {
    let mut core = core_with(vec![binding("transcribe", "f5", false)], true, false);
    let resp = change_binding(&mut core, good_env(), "transcribe", "ctrl+").unwrap();
    assert!(!resp.success);
    assert_eq!(resp.error, Some(ShortcutError::ParseFailed));
    let stored = core.settings.bindings.get("transcribe").unwrap();
    assert_eq!(stored.current_binding, "f5");
}

#[test]
fn change_binding_unknown_id_reports_not_found() {
    let mut core = core_with(vec![binding("transcribe", "f5", false)], true, false);
    let resp = change_binding(&mut core, good_env(), "nonexistent", "f6").unwrap();
    assert!(!resp.success);
    assert_eq!(resp.error, Some(ShortcutError::NotFound));
}

#[test]
fn change_binding_surfaces_host_refusal() {
    let mut core = core_with(vec![binding("transcribe", "f5", false)], true, false);
    let refusing = OsEnv { chord_install_ok: false, ..good_env() };
    let resp = change_binding(&mut core, refusing, "transcribe", "f6").unwrap();
    assert!(!resp.success);
    assert_eq!(resp.error, Some(ShortcutError::RegistrationRefused));
    let stored = core.settings.bindings.get("transcribe").unwrap();
    assert_eq!(stored.current_binding, "f5");
}

#[test]
fn duplicate_chord_is_refused_and_first_stays_functional() {
    let mut core = core_with(
        vec![binding("a", "f5", false), binding("b", "f5", false)],
        true,
        false,
    );
    let ba = binding("a", "f5", false);
    let bb = binding("b", "f5", false);
    assert_eq!(register_binding(&mut core, good_env(), &ba), Ok(()));
    assert_eq!(
        register_binding(&mut core, good_env(), &bb),
        Err(ShortcutError::AlreadyRegistered)
    );
    let calls = press_registered(&mut core, "f5", ShortcutState::Pressed);
    assert_eq!(log(&calls), vec![(String::from("a"), ActionKind::Start)]);
}

#[test]
fn equivalent_chord_text_counts_as_duplicate() {
    let mut core = core_with(
        vec![binding("a", "ctrl+shift+space", false), binding("b", "SHIFT+CTRL+SPACE", false)],
        true,
        false,
    );
    let ba = binding("a", "ctrl+shift+space", false);
    let bb = binding("b", "SHIFT+CTRL+SPACE", false);
    assert_eq!(register_binding(&mut core, good_env(), &ba), Ok(()));
    assert_eq!(
        register_binding(&mut core, good_env(), &bb),
        Err(ShortcutError::AlreadyRegistered)
    );
}

#[test]
fn reset_binding_returns_to_the_default() {
    let mut core = core_with(vec![binding("transcribe", "f5", false)], true, false);
    resume_binding(&mut core, good_env(), "transcribe").unwrap();
    let resp = change_binding(&mut core, good_env(), "transcribe", "alt+x").unwrap();
    assert!(resp.success);
    let resp = reset_binding(&mut core, good_env(), "transcribe").unwrap();
    assert!(resp.success);
    let stored = core.settings.bindings.get("transcribe").unwrap();
    assert_eq!(stored.current_binding, "f5");
    assert!(is_registered_text(&core, "f5"));
    assert!(!is_registered_text(&core, "alt+x"));
}

#[test]
fn suspend_resume_round_trip_restores_behavior() {
    let mut core = core_with(vec![binding("transcribe", "ctrl+shift+space", false)], true, false);
    resume_binding(&mut core, good_env(), "transcribe").unwrap();
    assert!(is_registered_text(&core, "ctrl+shift+space"));
    suspend_binding(&mut core, "transcribe").unwrap();
    assert!(!is_registered_text(&core, "ctrl+shift+space"));
    resume_binding(&mut core, good_env(), "transcribe").unwrap();
    assert!(is_registered_text(&core, "ctrl+shift+space"));
    let calls = press_registered(&mut core, "ctrl+shift+space", ShortcutState::Pressed);
    assert_eq!(log(&calls), vec![(String::from("transcribe"), ActionKind::Start)]);
}

#[test]
fn change_binding_round_trip_restores_the_old_shortcut() {
    let mut core = core_with(vec![binding("transcribe", "ctrl+shift+space", false)], true, false);
    resume_binding(&mut core, good_env(), "transcribe").unwrap();
    let resp = change_binding(&mut core, good_env(), "transcribe", "alt+x").unwrap();
    assert!(resp.success);
    let resp = change_binding(&mut core, good_env(), "transcribe", "ctrl+shift+space").unwrap();
    assert!(resp.success);
    let stored = core.settings.bindings.get("transcribe").unwrap();
    assert_eq!(stored.current_binding, "ctrl+shift+space");
    assert!(is_registered_text(&core, "ctrl+shift+space"));
    assert!(!is_registered_text(&core, "alt+x"));
    let calls = press_registered(&mut core, "ctrl+shift+space", ShortcutState::Pressed);
    assert_eq!(log(&calls), vec![(String::from("transcribe"), ActionKind::Start)]);
}

#[test]
fn init_registers_static_bindings_and_skips_dynamic_ones() {
    let mut core = core_with(
        vec![binding("transcribe", "ctrl+shift+space", false), binding("cancel", "esc", true)],
        true,
        false,
    );
    init_shortcuts(&mut core, good_env());
    assert!(is_registered_text(&core, "ctrl+shift+space"));
    assert!(!is_registered_text(&core, "esc"));
}

#[test]
fn dynamic_registration_is_idempotent() {
    let mut core = core_with(
        vec![binding("transcribe", "ctrl+shift+space", false), binding("cancel", "esc", true)],
        true,
        false,
    );
    for _ in 0..3 {
        assert_eq!(register_dynamic_binding(&mut core, good_env(), "cancel"), Ok(()));
    }
    let ch = parse_chord("esc").unwrap();
    let live = core.registrar.entries.iter().filter(|e| e.chord.chord_eq(&ch)).count();
    assert_eq!(live, 1);
    let calls = press_registered(&mut core, "esc", ShortcutState::Pressed);
    assert_eq!(log(&calls), vec![(String::from("cancel"), ActionKind::Start)]);
}

#[test]
fn dynamic_endpoints_refuse_non_dynamic_and_unknown_bindings() {
    let mut core = core_with(
        vec![binding("transcribe", "ctrl+shift+space", false), binding("cancel", "esc", true)],
        true,
        false,
    );
    assert_eq!(
        register_dynamic_binding(&mut core, good_env(), "transcribe"),
        Err(ShortcutError::NotDynamic)
    );
    assert_eq!(
        register_dynamic_binding(&mut core, good_env(), "nonexistent"),
        Err(ShortcutError::NotFound)
    );
    assert_eq!(
        unregister_dynamic_binding(&mut core, "nonexistent"),
        Err(ShortcutError::NotFound)
    );
}

#[test]
fn dynamic_reregistration_from_a_callback_does_not_leak() {
    let mut core = core_with(
        vec![binding("transcribe", "ctrl+shift+space", false), binding("cancel", "esc", true)],
        true,
        false,
    );
    resume_binding(&mut core, good_env(), "transcribe").unwrap();
    for _round in 0..2 {
        let calls = press_registered(&mut core, "ctrl+shift+space", ShortcutState::Pressed);
        for c in calls.iter() {
            // The transcribe action installs the cancel chord when it starts.
            if c.binding_id == "transcribe" && c.kind == ActionKind::Start {
                register_dynamic_binding(&mut core, good_env(), "cancel").unwrap();
            }
        }
        let _ = press_registered(&mut core, "ctrl+shift+space", ShortcutState::Released);
    }
    let ch = parse_chord("esc").unwrap();
    let live = core.registrar.entries.iter().filter(|e| e.chord.chord_eq(&ch)).count();
    assert_eq!(live, 1);
    let calls = press_registered(&mut core, "esc", ShortcutState::Pressed);
    assert_eq!(log(&calls), vec![(String::from("cancel"), ActionKind::Start)]);
    assert_eq!(unregister_dynamic_binding(&mut core, "cancel"), Ok(()));
    assert!(!is_registered_text(&core, "esc"));
}

#[test]
fn suspend_and_resume_of_unknown_ids_are_no_ops() {
    let mut core = core_with(vec![binding("transcribe", "f5", false)], true, false);
    assert_eq!(suspend_binding(&mut core, "nonexistent"), Ok(()));
    assert_eq!(resume_binding(&mut core, good_env(), "nonexistent"), Ok(()));
}

#[test]
fn ptt_setting_is_persisted() {
    let mut s = base_settings();
    change_ptt_setting(&mut s, false);
    assert!(!s.push_to_talk);
    change_ptt_setting(&mut s, true);
    assert!(s.push_to_talk);
}

#[test]
fn fn_binding_routes_to_the_monitor_on_the_fn_platform() {
    let mut core = core_with(vec![binding("transcribe", "fn", false)], true, true);
    resume_binding(&mut core, good_env(), "transcribe").unwrap();
    assert!(core.monitor.started);
    assert_eq!(core.monitor.entries.entries.len(), 1);
    assert!(core.registrar.entries.is_empty());
}

#[test]
fn error_messages_name_each_outcome() {
    assert!(ShortcutError::Invalid.message().contains("non-modifier"));
    assert!(ShortcutError::AlreadyRegistered.message().contains("in use"));
    assert!(ShortcutError::PermissionDenied.message().contains("permission"));
    assert!(ShortcutError::NotDynamic.message().contains("dynamic"));
}
