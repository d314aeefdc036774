//! The persisted settings the shortcut core reads and the endpoints that
//! edit them.  Persistence itself stays with the embedding layer; every
//! function here mutates the in-memory record and states exactly what
//! changed.

use vstd::prelude::*;

use crate::table::Table;
use crate::text::str_eq;

verus! {

/// A named key binding.
pub struct ShortcutBinding {
    /// Stable key of the binding (for example `transcribe` or `cancel`).
    pub id: String,
    /// The textual shortcut currently bound; empty means disabled.
    pub current_binding: String,
    /// The factory value `reset` returns to.
    pub default_binding: String,
    /// Dynamic bindings are not installed at startup; an action installs
    /// and drops them at runtime.
    pub dynamic: bool,
}

/// The mathematical value of a binding.
pub struct BindingV {
    pub id: Seq<char>,
    pub current: Seq<char>,
    pub default: Seq<char>,
    pub dynamic: bool,
}

impl View for ShortcutBinding {
    type V = BindingV;

    open spec fn view(&self) -> BindingV {
        BindingV {
            id: self.id@,
            current: self.current_binding@,
            default: self.default_binding@,
            dynamic: self.dynamic,
        }
    }
}

impl Clone for ShortcutBinding {
    fn clone(&self) -> (r: Self)
        ensures
            r == *self,
    {
        ShortcutBinding {
            id: self.id.clone(),
            current_binding: self.current_binding.clone(),
            default_binding: self.default_binding.clone(),
            dynamic: self.dynamic,
        }
    }
}

/// A stored post-processing prompt.
pub struct LLMPrompt {
    pub id: String,
    pub name: String,
    pub prompt: String,
}

/// The mathematical value of a prompt.
pub struct PromptV {
    pub id: Seq<char>,
    pub name: Seq<char>,
    pub prompt: Seq<char>,
}

impl View for LLMPrompt {
    type V = PromptV;

    open spec fn view(&self) -> PromptV {
        PromptV { id: self.id@, name: self.name@, prompt: self.prompt@ }
    }
}

impl Clone for LLMPrompt {
    fn clone(&self) -> (r: Self)
        ensures
            r == *self,
    {
        LLMPrompt { id: self.id.clone(), name: self.name.clone(), prompt: self.prompt.clone() }
    }
}

/// A provider of the post-processing model list.
pub struct PostProcessProvider {
    pub id: String,
    pub label: String,
    pub base_url: String,
    pub models_endpoint: Option<String>,
    pub allow_base_url_edit: bool,
}

/// The sound theme for audio feedback.
#[derive(Clone, Copy, PartialEq, Eq, Structural, Debug)]
pub enum SoundTheme {
    Marimba,
    Pop,
    Custom,
}

/// Where the recording overlay is shown.
#[derive(Clone, Copy, PartialEq, Eq, Structural, Debug)]
pub enum OverlayPosition {
    Hidden,
    Top,
    Bottom,
}

/// How transcribed text is delivered.
#[derive(Clone, Copy, PartialEq, Eq, Structural, Debug)]
pub enum PasteMethod {
    CtrlV,
    Direct,
    Disabled,
    ShiftInsert,
}

/// What happens to the clipboard when pasting.
#[derive(Clone, Copy, PartialEq, Eq, Structural, Debug)]
pub enum ClipboardHandling {
    DontModify,
    CopyToClipboard,
}

/// The application settings the core reads and edits.
pub struct AppSettings {
    pub bindings: Table<ShortcutBinding>,
    pub push_to_talk: bool,
    pub audio_feedback: bool,
    pub sound_theme: SoundTheme,
    pub translate_to_english: bool,
    pub selected_language: String,
    pub overlay_position: OverlayPosition,
    pub debug_mode: bool,
    pub start_hidden: bool,
    pub autostart_enabled: bool,
    pub custom_words: Vec<String>,
    pub paste_method: PasteMethod,
    pub clipboard_handling: ClipboardHandling,
    pub post_process_enabled: bool,
    pub post_process_provider_id: String,
    pub post_process_providers: Vec<PostProcessProvider>,
    pub post_process_prompts: Vec<LLMPrompt>,
    pub post_process_selected_prompt_id: Option<String>,
    pub post_process_api_keys: Table<String>,
    pub post_process_models: Table<String>,
    pub mute_while_recording: bool,
}

impl AppSettings {
    /// Every keyed collection inside the settings has unique keys.
    pub open spec fn wf(&self) -> bool {
        self.bindings.wf() && self.post_process_api_keys.wf() && self.post_process_models.wf()
    }
}

/// The sound theme a textual name selects; unknown names fall back to the
/// default theme.
pub open spec fn sound_theme_of(s: Seq<char>) -> SoundTheme {
    if s == "marimba"@ {
        SoundTheme::Marimba
    } else if s == "pop"@ {
        SoundTheme::Pop
    } else if s == "custom"@ {
        SoundTheme::Custom
    } else {
        SoundTheme::Marimba
    }
}

/// The overlay position a textual name selects; unknown names fall back
/// to the bottom.
pub open spec fn overlay_position_of(s: Seq<char>) -> OverlayPosition {
    if s == "none"@ {
        OverlayPosition::Hidden
    } else if s == "top"@ {
        OverlayPosition::Top
    } else if s == "bottom"@ {
        OverlayPosition::Bottom
    } else {
        OverlayPosition::Bottom
    }
}

/// The paste method a textual name selects; unknown names fall back to
/// the default method.
pub open spec fn paste_method_of(s: Seq<char>) -> PasteMethod {
    if s == "ctrl_v"@ {
        PasteMethod::CtrlV
    } else if s == "direct"@ {
        PasteMethod::Direct
    } else if s == "none"@ {
        PasteMethod::Disabled
    } else if s == "shift_insert"@ {
        PasteMethod::ShiftInsert
    } else {
        PasteMethod::CtrlV
    }
}

/// The clipboard handling a textual name selects; unknown names fall
/// back to leaving the clipboard alone.
pub open spec fn clipboard_handling_of(s: Seq<char>) -> ClipboardHandling {
    if s == "dont_modify"@ {
        ClipboardHandling::DontModify
    } else if s == "copy_to_clipboard"@ {
        ClipboardHandling::CopyToClipboard
    } else {
        ClipboardHandling::DontModify
    }
}

/// Turns push-to-talk mode on or off.
pub fn change_ptt_setting(settings: &mut AppSettings, enabled: bool)
    ensures
        *final(settings) == (AppSettings { push_to_talk: enabled, ..*old(settings) }),
{
    settings.push_to_talk = enabled;
}

/// Turns audio feedback on or off.
pub fn change_audio_feedback_setting(settings: &mut AppSettings, enabled: bool)
    ensures
        *final(settings) == (AppSettings { audio_feedback: enabled, ..*old(settings) }),
{
    settings.audio_feedback = enabled;
}

/// Selects the sound theme by name.
pub fn change_sound_theme_setting(settings: &mut AppSettings, theme: &str)
    ensures
        *final(settings) == (AppSettings {
            sound_theme: sound_theme_of(theme@),
            ..*old(settings)
        }),
{
    let parsed = if str_eq(theme, "marimba") {
        SoundTheme::Marimba
    } else if str_eq(theme, "pop") {
        SoundTheme::Pop
    } else if str_eq(theme, "custom") {
        SoundTheme::Custom
    } else {
        SoundTheme::Marimba
    };
    settings.sound_theme = parsed;
}

/// Turns translation to English on or off.
pub fn change_translate_to_english_setting(settings: &mut AppSettings, enabled: bool)
    ensures
        *final(settings) == (AppSettings { translate_to_english: enabled, ..*old(settings) }),
{
    settings.translate_to_english = enabled;
}

/// Selects the transcription language.
pub fn change_selected_language_setting(settings: &mut AppSettings, language: String)
    ensures
        *final(settings) == (AppSettings { selected_language: language, ..*old(settings) }),
{
    settings.selected_language = language;
}

/// Selects the overlay position by name.
pub fn change_overlay_position_setting(settings: &mut AppSettings, position: &str)
    ensures
        *final(settings) == (AppSettings {
            overlay_position: overlay_position_of(position@),
            ..*old(settings)
        }),
{
    let parsed = if str_eq(position, "none") {
        OverlayPosition::Hidden
    } else if str_eq(position, "top") {
        OverlayPosition::Top
    } else if str_eq(position, "bottom") {
        OverlayPosition::Bottom
    } else {
        OverlayPosition::Bottom
    };
    settings.overlay_position = parsed;
}

/// Turns debug mode on or off.
pub fn change_debug_mode_setting(settings: &mut AppSettings, enabled: bool)
    ensures
        *final(settings) == (AppSettings { debug_mode: enabled, ..*old(settings) }),
{
    settings.debug_mode = enabled;
}

/// Turns starting hidden on or off.
pub fn change_start_hidden_setting(settings: &mut AppSettings, enabled: bool)
    ensures
        *final(settings) == (AppSettings { start_hidden: enabled, ..*old(settings) }),
{
    settings.start_hidden = enabled;
}

/// Records whether the application starts with the session.
pub fn change_autostart_setting(settings: &mut AppSettings, enabled: bool)
    ensures
        *final(settings) == (AppSettings { autostart_enabled: enabled, ..*old(settings) }),
{
    settings.autostart_enabled = enabled;
}

/// Replaces the custom vocabulary.
pub fn update_custom_words(settings: &mut AppSettings, words: Vec<String>)
    ensures
        *final(settings) == (AppSettings { custom_words: words, ..*old(settings) }),
{
    settings.custom_words = words;
}

/// Selects the paste method by name.
pub fn change_paste_method_setting(settings: &mut AppSettings, method: &str)
    ensures
        *final(settings) == (AppSettings {
            paste_method: paste_method_of(method@),
            ..*old(settings)
        }),
{
    let parsed = if str_eq(method, "ctrl_v") {
        PasteMethod::CtrlV
    } else if str_eq(method, "direct") {
        PasteMethod::Direct
    } else if str_eq(method, "none") {
        PasteMethod::Disabled
    } else if str_eq(method, "shift_insert") {
        PasteMethod::ShiftInsert
    } else {
        PasteMethod::CtrlV
    };
    settings.paste_method = parsed;
}

/// Selects the clipboard handling by name.
pub fn change_clipboard_handling_setting(settings: &mut AppSettings, handling: &str)
    ensures
        *final(settings) == (AppSettings {
            clipboard_handling: clipboard_handling_of(handling@),
            ..*old(settings)
        }),
{
    let parsed = if str_eq(handling, "dont_modify") {
        ClipboardHandling::DontModify
    } else if str_eq(handling, "copy_to_clipboard") {
        ClipboardHandling::CopyToClipboard
    } else {
        ClipboardHandling::DontModify
    };
    settings.clipboard_handling = parsed;
}

/// Turns post-processing on or off.
pub fn change_post_process_enabled_setting(settings: &mut AppSettings, enabled: bool)
    ensures
        *final(settings) == (AppSettings { post_process_enabled: enabled, ..*old(settings) }),
{
    settings.post_process_enabled = enabled;
}

/// Turns muting while recording on or off.
pub fn change_mute_while_recording_setting(settings: &mut AppSettings, enabled: bool)
    ensures
        *final(settings) == (AppSettings { mute_while_recording: enabled, ..*old(settings) }),
{
    settings.mute_while_recording = enabled;
}

} // verus!
