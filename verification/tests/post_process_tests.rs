use shortcut_core::post_process::{
    add_post_process_prompt, change_post_process_api_key_setting,
    change_post_process_base_url_setting, change_post_process_model_setting,
    delete_post_process_prompt, extract_model_names, models_request_url, plan_models_request,
    set_post_process_provider, set_post_process_selected_prompt, update_post_process_prompt,
    validate_provider_exists, ModelEntry, ModelsDoc, SettingsError,
};
use shortcut_core::settings::{
    AppSettings, ClipboardHandling, LLMPrompt, OverlayPosition, PasteMethod, PostProcessProvider,
    SoundTheme,
};
use shortcut_core::table::Table;

fn base_settings() -> AppSettings {
    AppSettings {
        bindings: Table::new(),
        push_to_talk: true,
        audio_feedback: false,
        sound_theme: SoundTheme::Marimba,
        translate_to_english: false,
        selected_language: String::from("en"),
        overlay_position: OverlayPosition::Bottom,
        debug_mode: false,
        start_hidden: false,
        autostart_enabled: false,
        custom_words: Vec::new(),
        paste_method: PasteMethod::CtrlV,
        clipboard_handling: ClipboardHandling::DontModify,
        post_process_enabled: false,
        post_process_provider_id: String::from("custom"),
        post_process_providers: Vec::new(),
        post_process_prompts: Vec::new(),
        post_process_selected_prompt_id: None,
        post_process_api_keys: Table::new(),
        post_process_models: Table::new(),
        mute_while_recording: false,
    }
}

fn provider(id: &str, base: &str, endpoint: Option<&str>, editable: bool) -> PostProcessProvider {
    PostProcessProvider {
        id: String::from(id),
        label: String::from(id),
        base_url: String::from(base),
        models_endpoint: endpoint.map(String::from),
        allow_base_url_edit: editable,
    }
}

fn prompt(id: &str, name: &str, text: &str) -> LLMPrompt {
    LLMPrompt { id: String::from(id), name: String::from(name), prompt: String::from(text) }
}

fn settings_with_providers() -> AppSettings {
    let mut s = base_settings();
    s.post_process_providers.push(provider("openai", "https://api.openai.com/v1/", None, false));
    s.post_process_providers.push(provider("anthropic", "https://api.anthropic.com/v1", Some("/models"), false));
    s.post_process_providers.push(provider("custom", "http://localhost:8080/", None, true));
    s
}

#[test]
fn provider_validation_distinguishes_known_and_unknown() {
    let s = settings_with_providers();
    assert_eq!(validate_provider_exists(&s, "openai"), Ok(()));
    assert_eq!(validate_provider_exists(&s, "anthropic"), Ok(()));
    assert_eq!(validate_provider_exists(&s, "nonexistent"), Err(SettingsError::NotFound));
}

#[test]
fn api_key_and_model_settings_require_a_known_provider() {
    let mut s = settings_with_providers();
    assert_eq!(
        change_post_process_api_key_setting(&mut s, "openai", String::from("k1")),
        Ok(())
    );
    assert_eq!(
        change_post_process_model_setting(&mut s, "openai", String::from("gpt")),
        Ok(())
    );
    assert_eq!(
        change_post_process_api_key_setting(&mut s, "ghost", String::from("k")),
        Err(SettingsError::NotFound)
    );
    assert_eq!(
        change_post_process_model_setting(&mut s, "ghost", String::from("m")),
        Err(SettingsError::NotFound)
    );
    assert_eq!(set_post_process_provider(&mut s, String::from("openai")), Ok(()));
    assert_eq!(s.post_process_provider_id, "openai");
    assert_eq!(
        set_post_process_provider(&mut s, String::from("ghost")),
        Err(SettingsError::NotFound)
    );
}

#[test]
fn base_url_editing_respects_the_provider_flag() {
    let mut s = settings_with_providers();
    assert_eq!(
        change_post_process_base_url_setting(&mut s, "openai", String::from("http://x/")),
        Err(SettingsError::BaseUrlNotEditable)
    );
    assert_eq!(s.post_process_providers[0].base_url, "https://api.openai.com/v1/");
    assert_eq!(
        change_post_process_base_url_setting(&mut s, "custom", String::from("http://y/")),
        Ok(())
    );
    assert_eq!(s.post_process_providers[2].base_url, "http://y/");
    assert_eq!(
        change_post_process_base_url_setting(&mut s, "ghost", String::from("http://z/")),
        Err(SettingsError::NotFound)
    );
}

#[test]
fn added_prompts_carry_a_timestamp_id() {
    let mut s = base_settings();
    let p = add_post_process_prompt(&mut s, String::from("clean"), String::from("Clean this up"))
        .unwrap();
    assert!(p.id.starts_with("prompt_"));
    let digits = &p.id["prompt_".len()..];
    assert!(!digits.is_empty());
    assert!(digits.chars().all(|c| c.is_ascii_digit()));
    assert_eq!(p.name, "clean");
    assert_eq!(p.prompt, "Clean this up");
    assert_eq!(s.post_process_prompts.len(), 1);
    assert_eq!(s.post_process_prompts[0].id, p.id);
}

#[test]
fn prompt_updates_rewrite_name_and_text() {
    let mut s = base_settings();
    s.post_process_prompts.push(prompt("p1", "old", "old text"));
    assert_eq!(
        update_post_process_prompt(&mut s, "p1", String::from("new"), String::from("new text")),
        Ok(())
    );
    assert_eq!(s.post_process_prompts[0].name, "new");
    assert_eq!(s.post_process_prompts[0].prompt, "new text");
    assert_eq!(
        update_post_process_prompt(&mut s, "ghost", String::from("n"), String::from("t")),
        Err(SettingsError::NotFound)
    );
}

#[test]
fn the_last_prompt_cannot_be_deleted() {
    let mut s = base_settings();
    s.post_process_prompts.push(prompt("p1", "only", "text"));
    assert_eq!(delete_post_process_prompt(&mut s, "p1"), Err(SettingsError::LastPrompt));
    assert_eq!(s.post_process_prompts.len(), 1);
}

#[test]
fn deleting_a_missing_prompt_reports_not_found() {
    let mut s = base_settings();
    s.post_process_prompts.push(prompt("p1", "a", "t"));
    s.post_process_prompts.push(prompt("p2", "b", "t"));
    assert_eq!(delete_post_process_prompt(&mut s, "ghost"), Err(SettingsError::NotFound));
    assert_eq!(s.post_process_prompts.len(), 2);
}

#[test]
fn deleting_the_selected_prompt_moves_the_selection() {
    let mut s = base_settings();
    s.post_process_prompts.push(prompt("p1", "a", "t"));
    s.post_process_prompts.push(prompt("p2", "b", "t"));
    s.post_process_selected_prompt_id = Some(String::from("p2"));
    assert_eq!(delete_post_process_prompt(&mut s, "p2"), Ok(()));
    assert_eq!(s.post_process_prompts.len(), 1);
    assert_eq!(s.post_process_selected_prompt_id, Some(String::from("p1")));
}

#[test]
fn deleting_an_unselected_prompt_keeps_the_selection() {
    let mut s = base_settings();
    s.post_process_prompts.push(prompt("p1", "a", "t"));
    s.post_process_prompts.push(prompt("p2", "b", "t"));
    s.post_process_selected_prompt_id = Some(String::from("p2"));
    assert_eq!(delete_post_process_prompt(&mut s, "p1"), Ok(()));
    assert_eq!(s.post_process_selected_prompt_id, Some(String::from("p2")));
}

#[test]
fn selecting_a_prompt_requires_it_to_exist() {
    let mut s = base_settings();
    s.post_process_prompts.push(prompt("p1", "a", "t"));
    assert_eq!(set_post_process_selected_prompt(&mut s, String::from("p1")), Ok(()));
    assert_eq!(s.post_process_selected_prompt_id, Some(String::from("p1")));
    assert_eq!(
        set_post_process_selected_prompt(&mut s, String::from("ghost")),
        Err(SettingsError::NotFound)
    );
}

#[test]
fn model_urls_join_base_and_endpoint_with_one_slash() {
    assert_eq!(
        models_request_url("https://api.openai.com/v1/", &None),
        "https://api.openai.com/v1/models"
    );
    assert_eq!(
        models_request_url("https://api.openai.com/v1", &Some(String::from("/models"))),
        "https://api.openai.com/v1/models"
    );
    assert_eq!(models_request_url("http://x//", &Some(String::from("//y"))), "http://x/y");
    assert_eq!(models_request_url("", &None), "/models");
}

#[test]
fn planning_requires_an_api_key_except_for_the_custom_provider() {
    let mut s = settings_with_providers();
    assert!(matches!(plan_models_request(&s, "openai"), Err(SettingsError::ApiKeyRequired)));
    change_post_process_api_key_setting(&mut s, "openai", String::from("  ")).unwrap();
    assert!(matches!(plan_models_request(&s, "openai"), Err(SettingsError::ApiKeyRequired)));
    let q = plan_models_request(&s, "custom").unwrap();
    assert_eq!(q.url, "http://localhost:8080/models");
    assert!(q.headers.is_empty());
    assert!(matches!(plan_models_request(&s, "ghost"), Err(SettingsError::NotFound)));
}

#[test]
fn planning_builds_bearer_or_anthropic_headers() {
    let mut s = settings_with_providers();
    change_post_process_api_key_setting(&mut s, "openai", String::from("sk-test")).unwrap();
    let q = plan_models_request(&s, "openai").unwrap();
    assert_eq!(q.url, "https://api.openai.com/v1/models");
    assert_eq!(
        q.headers,
        vec![(String::from("Authorization"), String::from("Bearer sk-test"))]
    );
    change_post_process_api_key_setting(&mut s, "anthropic", String::from("ak-test")).unwrap();
    let q = plan_models_request(&s, "anthropic").unwrap();
    assert_eq!(q.url, "https://api.anthropic.com/v1/models");
    assert_eq!(
        q.headers,
        vec![
            (String::from("x-api-key"), String::from("ak-test")),
            (String::from("anthropic-version"), String::from("2023-06-01")),
        ]
    );
}

#[test]
fn model_names_come_from_ids_then_names() {
    let doc = ModelsDoc::DataList(vec![
        ModelEntry { id: Some(String::from("gpt-a")), name: None },
        ModelEntry { id: None, name: Some(String::from("gpt-b")) },
        ModelEntry { id: None, name: None },
        ModelEntry { id: Some(String::from("gpt-c")), name: Some(String::from("ignored")) },
    ]);
    assert_eq!(
        extract_model_names(&doc),
        vec![String::from("gpt-a"), String::from("gpt-b"), String::from("gpt-c")]
    );
}

#[test]
fn plain_array_replies_keep_their_string_elements() {
    let doc = ModelsDoc::PlainList(vec![
        Some(String::from("m1")),
        None,
        Some(String::from("m2")),
    ]);
    assert_eq!(extract_model_names(&doc), vec![String::from("m1"), String::from("m2")]);
    assert!(extract_model_names(&ModelsDoc::Other).is_empty());
}

#[test]
fn settings_error_messages_describe_each_case() {
    assert!(SettingsError::LastPrompt.message().contains("last prompt"));
    assert!(SettingsError::ApiKeyRequired.message().contains("API key"));
    assert!(SettingsError::BaseUrlNotEditable.message().contains("base URL"));
    assert_eq!(SettingsError::NotFound.message(), "not found");
}
