use shortcut_core::settings::{
    change_audio_feedback_setting, change_clipboard_handling_setting, change_debug_mode_setting,
    change_overlay_position_setting, change_paste_method_setting, change_sound_theme_setting,
    update_custom_words, AppSettings, ClipboardHandling, OverlayPosition, PasteMethod,
    ShortcutBinding, SoundTheme,
};
use shortcut_core::table::Table;

fn base_settings() -> AppSettings {
    AppSettings {
        bindings: Table::new(),
        push_to_talk: true,
        audio_feedback: false,
        sound_theme: SoundTheme::Marimba,
        translate_to_english: false,
        selected_language: String::from("en"),
        overlay_position: OverlayPosition::Bottom,
        debug_mode: false,
        start_hidden: false,
        autostart_enabled: false,
        custom_words: Vec::new(),
        paste_method: PasteMethod::CtrlV,
        clipboard_handling: ClipboardHandling::DontModify,
        post_process_enabled: false,
        post_process_provider_id: String::from("custom"),
        post_process_providers: Vec::new(),
        post_process_prompts: Vec::new(),
        post_process_selected_prompt_id: None,
        post_process_api_keys: Table::new(),
        post_process_models: Table::new(),
        mute_while_recording: false,
    }
}

#[test]
fn sound_theme_names_parse_with_fallback() {
    let mut s = base_settings();
    change_sound_theme_setting(&mut s, "pop");
    assert_eq!(s.sound_theme, SoundTheme::Pop);
    change_sound_theme_setting(&mut s, "custom");
    assert_eq!(s.sound_theme, SoundTheme::Custom);
    change_sound_theme_setting(&mut s, "marimba");
    assert_eq!(s.sound_theme, SoundTheme::Marimba);
    change_sound_theme_setting(&mut s, "xylophone");
    assert_eq!(s.sound_theme, SoundTheme::Marimba);
}

#[test]
fn overlay_position_names_parse_with_fallback() {
    let mut s = base_settings();
    change_overlay_position_setting(&mut s, "none");
    assert_eq!(s.overlay_position, OverlayPosition::Hidden);
    change_overlay_position_setting(&mut s, "top");
    assert_eq!(s.overlay_position, OverlayPosition::Top);
    change_overlay_position_setting(&mut s, "bottom");
    assert_eq!(s.overlay_position, OverlayPosition::Bottom);
    change_overlay_position_setting(&mut s, "sideways");
    assert_eq!(s.overlay_position, OverlayPosition::Bottom);
}

#[test]
fn paste_method_names_parse_with_fallback() {
    let mut s = base_settings();
    change_paste_method_setting(&mut s, "direct");
    assert_eq!(s.paste_method, PasteMethod::Direct);
    change_paste_method_setting(&mut s, "none");
    assert_eq!(s.paste_method, PasteMethod::Disabled);
    change_paste_method_setting(&mut s, "shift_insert");
    assert_eq!(s.paste_method, PasteMethod::ShiftInsert);
    change_paste_method_setting(&mut s, "ctrl_v");
    assert_eq!(s.paste_method, PasteMethod::CtrlV);
    change_paste_method_setting(&mut s, "telepathy");
    assert_eq!(s.paste_method, PasteMethod::CtrlV);
}

#[test]
fn clipboard_handling_names_parse_with_fallback() {
    let mut s = base_settings();
    change_clipboard_handling_setting(&mut s, "copy_to_clipboard");
    assert_eq!(s.clipboard_handling, ClipboardHandling::CopyToClipboard);
    change_clipboard_handling_setting(&mut s, "dont_modify");
    assert_eq!(s.clipboard_handling, ClipboardHandling::DontModify);
    change_clipboard_handling_setting(&mut s, "shred");
    assert_eq!(s.clipboard_handling, ClipboardHandling::DontModify);
}

#[test]
fn boolean_setters_only_touch_their_field() {
    let mut s = base_settings();
    change_audio_feedback_setting(&mut s, true);
    assert!(s.audio_feedback);
    assert!(s.push_to_talk);
    change_debug_mode_setting(&mut s, true);
    assert!(s.debug_mode);
    assert!(s.audio_feedback);
}

#[test]
fn custom_words_are_replaced_wholesale() {
    let mut s = base_settings();
    update_custom_words(&mut s, vec![String::from("verus"), String::from("hotkey")]);
    assert_eq!(s.custom_words, vec![String::from("verus"), String::from("hotkey")]);
    update_custom_words(&mut s, Vec::new());
    assert!(s.custom_words.is_empty());
}

#[test]
fn binding_clone_preserves_every_field() {
    let b = ShortcutBinding {
        id: String::from("transcribe"),
        current_binding: String::from("ctrl+shift+space"),
        default_binding: String::from("f5"),
        dynamic: true,
    };
    let c = b.clone();
    assert_eq!(c.id, "transcribe");
    assert_eq!(c.current_binding, "ctrl+shift+space");
    assert_eq!(c.default_binding, "f5");
    assert!(c.dynamic);
}
