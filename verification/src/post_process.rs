//! The post-processing configuration endpoints: providers, prompts and
//! the planning half of the model-list fetch.  The network call itself
//! stays with the embedding layer; everything decided here — which
//! provider, which endpoint, which headers, what the reply means — is
//! stated and proved.

use vstd::prelude::*;

use crate::settings::{AppSettings, LLMPrompt, PostProcessProvider};
use crate::text::{is_space, is_space_char, str_eq, trim_back, trim_front, trim_seq};

verus! {

/// The view of an optional string.
pub open spec fn opt_str_view(o: Option<String>) -> Option<Seq<char>> {
    match o {
        Some(s) => Some(s@),
        None => None,
    }
}

/// A copy of an optional string.
fn clone_opt_string(o: &Option<String>) -> (r: Option<String>)
    ensures
        r == *o,
{
    match o {
        Some(s) => Some(s.clone()),
        None => None,
    }
}

/// The failures of the settings endpoints.
#[derive(Clone, Copy, PartialEq, Eq, Structural, Debug)]
pub enum SettingsError {
    /// The named provider or prompt is absent.
    NotFound,
    /// The last remaining prompt cannot be deleted.
    LastPrompt,
    /// The provider does not allow editing its base URL.
    BaseUrlNotEditable,
    /// The provider requires an API key before its models can be listed.
    ApiKeyRequired,
}

impl SettingsError {
    /// A short description of the error, for the embedding layer to show.
    pub fn message(&self) -> (r: &'static str)
        ensures
            (match *self {
                SettingsError::NotFound => r@ == "not found"@,
                SettingsError::LastPrompt => r@ == "cannot delete the last prompt"@,
                SettingsError::BaseUrlNotEditable => r@ == "provider does not allow editing the base URL"@,
                SettingsError::ApiKeyRequired => r@ == "an API key is required to list available models"@,
            }),
    {
        match self {
            SettingsError::NotFound => "not found",
            SettingsError::LastPrompt => "cannot delete the last prompt",
            SettingsError::BaseUrlNotEditable => "provider does not allow editing the base URL",
            SettingsError::ApiKeyRequired => "an API key is required to list available models",
        }
    }
}

/// Whether some provider carries the id.
pub open spec fn provider_exists(s: Seq<PostProcessProvider>, id: Seq<char>) -> bool {
    exists|i: int| 0 <= i < s.len() && s[i].id@ == id
}

/// Whether `i` is the first position carrying the provider id.
pub open spec fn provider_index_at(s: Seq<PostProcessProvider>, id: Seq<char>, i: int) -> bool {
    0 <= i < s.len() && s[i].id@ == id && (forall|j: int| 0 <= j < i ==> s[j].id@ != id)
}

/// Whether some prompt carries the id.
pub open spec fn prompt_exists(s: Seq<LLMPrompt>, id: Seq<char>) -> bool {
    exists|i: int| 0 <= i < s.len() && s[i].id@ == id
}

/// Whether `i` is the first position carrying the prompt id.
pub open spec fn prompt_index_at(s: Seq<LLMPrompt>, id: Seq<char>, i: int) -> bool {
    0 <= i < s.len() && s[i].id@ == id && (forall|j: int| 0 <= j < i ==> s[j].id@ != id)
}

/// Checks that the provider id names a configured provider.
pub fn validate_provider_exists(settings: &AppSettings, provider_id: &str) -> (r: Result<
    (),
    SettingsError,
>)
    ensures
        r == if provider_exists(settings.post_process_providers@, provider_id@) {
            Result::<(), SettingsError>::Ok(())
        } else {
            Result::<(), SettingsError>::Err(SettingsError::NotFound)
        },
{
    let n = settings.post_process_providers.len();
    let mut i: usize = 0;
    while i < n
        invariant
            i <= n,
            n == settings.post_process_providers@.len(),
            forall|j: int| 0 <= j < i ==> settings.post_process_providers@[j].id@
                != provider_id@,
        decreases n - i,
    {
        if str_eq(settings.post_process_providers[i].id.as_str(), provider_id) {
            proof {
                assert(provider_exists(settings.post_process_providers@, provider_id@)) by {
                    assert(settings.post_process_providers@[i as int].id@ == provider_id@);
                }
            }
            return Ok(());
        }
        i += 1;
    }
    proof {
        assert(!provider_exists(settings.post_process_providers@, provider_id@)) by {
            if provider_exists(settings.post_process_providers@, provider_id@) {
                let j = choose|j: int|
                    0 <= j < settings.post_process_providers@.len()
                        && settings.post_process_providers@[j].id@ == provider_id@;
            }
        }
    }
    Err(SettingsError::NotFound)
}

/// Stores the API key for a provider.
pub fn change_post_process_api_key_setting(
    settings: &mut AppSettings,
    provider_id: &str,
    api_key: String,
) -> (r: Result<(), SettingsError>)
    requires
        old(settings).wf(),
    ensures
        final(settings).wf(),
        (if provider_exists(old(settings).post_process_providers@, provider_id@) {
            r == Result::<(), SettingsError>::Ok(()) && final(settings).post_process_api_keys@
                == old(settings).post_process_api_keys@.insert(provider_id@, api_key@)
                && *final(settings) == (AppSettings {
                post_process_api_keys: final(settings).post_process_api_keys,
                ..*old(settings)
            })
        } else {
            r == Result::<(), SettingsError>::Err(SettingsError::NotFound) && *final(settings)
                == *old(settings)
        }),
{
    if let Err(e) = validate_provider_exists(settings, provider_id) {
        return Err(e);
    }
    settings.post_process_api_keys.insert(String::from_str(provider_id), api_key);
    Ok(())
}

/// Stores the selected model for a provider.
pub fn change_post_process_model_setting(
    settings: &mut AppSettings,
    provider_id: &str,
    model: String,
) -> (r: Result<(), SettingsError>)
    requires
        old(settings).wf(),
    ensures
        final(settings).wf(),
        (if provider_exists(old(settings).post_process_providers@, provider_id@) {
            r == Result::<(), SettingsError>::Ok(()) && final(settings).post_process_models@
                == old(settings).post_process_models@.insert(provider_id@, model@)
                && *final(settings) == (AppSettings {
                post_process_models: final(settings).post_process_models,
                ..*old(settings)
            })
        } else {
            r == Result::<(), SettingsError>::Err(SettingsError::NotFound) && *final(settings)
                == *old(settings)
        }),
{
    if let Err(e) = validate_provider_exists(settings, provider_id) {
        return Err(e);
    }
    settings.post_process_models.insert(String::from_str(provider_id), model);
    Ok(())
}

/// Selects the active provider.
pub fn set_post_process_provider(settings: &mut AppSettings, provider_id: String) -> (r: Result<
    (),
    SettingsError,
>)
    requires
        old(settings).wf(),
    ensures
        final(settings).wf(),
        (if provider_exists(old(settings).post_process_providers@, provider_id@) {
            r == Result::<(), SettingsError>::Ok(()) && *final(settings) == (AppSettings {
                post_process_provider_id: final(settings).post_process_provider_id,
                ..*old(settings)
            }) && final(settings).post_process_provider_id@ == provider_id@
        } else {
            r == Result::<(), SettingsError>::Err(SettingsError::NotFound) && *final(settings)
                == *old(settings)
        }),
{
    if let Err(e) = validate_provider_exists(settings, provider_id.as_str()) {
        return Err(e);
    }
    settings.post_process_provider_id = provider_id;
    Ok(())
}

/// Selects the active prompt.
pub fn set_post_process_selected_prompt(settings: &mut AppSettings, id: String) -> (r: Result<
    (),
    SettingsError,
>)
    requires
        old(settings).wf(),
    ensures
        final(settings).wf(),
        (if prompt_exists(old(settings).post_process_prompts@, id@) {
            r == Result::<(), SettingsError>::Ok(()) && *final(settings) == (AppSettings {
                post_process_selected_prompt_id: final(settings).post_process_selected_prompt_id,
                ..*old(settings)
            }) && (final(settings).post_process_selected_prompt_id matches Some(sid) && sid@
                == id@)
        } else {
            r == Result::<(), SettingsError>::Err(SettingsError::NotFound) && *final(settings)
                == *old(settings)
        }),
{
    let n = settings.post_process_prompts.len();
    let mut found = false;
    let mut i: usize = 0;
    while i < n
        invariant
            i <= n,
            *settings == *old(settings),
            old(settings).wf(),
            n == settings.post_process_prompts@.len(),
            found == exists|j: int|
                0 <= j < i && settings.post_process_prompts@[j].id@ == id@,
        decreases n - i,
    {
        if str_eq(settings.post_process_prompts[i].id.as_str(), id.as_str()) {
            found = true;
        }
        i += 1;
    }
    if !found {
        proof {
            assert(!prompt_exists(settings.post_process_prompts@, id@));
        }
        return Err(SettingsError::NotFound);
    }
    settings.post_process_selected_prompt_id = Some(id);
    Ok(())
}

/// Renames and rewrites the prompt with the given id.
pub fn update_post_process_prompt(
    settings: &mut AppSettings,
    id: &str,
    name: String,
    prompt: String,
) -> (r: Result<(), SettingsError>)
    requires
        old(settings).wf(),
    ensures
        final(settings).wf(),
        (if prompt_exists(old(settings).post_process_prompts@, id@) {
            r == Result::<(), SettingsError>::Ok(()) && *final(settings) == (AppSettings {
                post_process_prompts: final(settings).post_process_prompts,
                ..*old(settings)
            }) && exists|i: int|
                #![auto]
                prompt_index_at(old(settings).post_process_prompts@, id@, i)
                    && final(settings).post_process_prompts@
                    == old(settings).post_process_prompts@.update(
                    i,
                    final(settings).post_process_prompts@[i],
                ) && final(settings).post_process_prompts@[i].id@ == id@
                    && final(settings).post_process_prompts@[i].name == name
                    && final(settings).post_process_prompts@[i].prompt == prompt
        } else {
            r == Result::<(), SettingsError>::Err(SettingsError::NotFound) && *final(settings)
                == *old(settings)
        }),
{
    let n = settings.post_process_prompts.len();
    let mut i: usize = 0;
    while i < n
        invariant
            i <= n,
            *settings == *old(settings),
            old(settings).wf(),
            n == settings.post_process_prompts@.len(),
            forall|j: int| 0 <= j < i ==> settings.post_process_prompts@[j].id@ != id@,
        decreases n - i,
    {
        if str_eq(settings.post_process_prompts[i].id.as_str(), id) {
            let old_id = settings.post_process_prompts[i].id.clone();
            settings.post_process_prompts.set(i, LLMPrompt { id: old_id, name, prompt });
            proof {
                assert(prompt_index_at(old(settings).post_process_prompts@, id@, i as int));
                assert(prompt_exists(old(settings).post_process_prompts@, id@)) by {
                    assert(old(settings).post_process_prompts@[i as int].id@ == id@);
                }
            }
            return Ok(());
        }
        i += 1;
    }
    proof {
        assert(!prompt_exists(settings.post_process_prompts@, id@)) by {
            if prompt_exists(settings.post_process_prompts@, id@) {
                let j = choose|j: int|
                    0 <= j < settings.post_process_prompts@.len()
                        && settings.post_process_prompts@[j].id@ == id@;
            }
        }
    }
    Err(SettingsError::NotFound)
}

/// The prompts left when every prompt with the given id is removed.
pub open spec fn prompts_without(s: Seq<LLMPrompt>, id: Seq<char>) -> Seq<LLMPrompt>
    decreases s.len(),
{
    if s.len() == 0 {
        Seq::empty()
    } else {
        let rest = prompts_without(s.drop_last(), id);
        if s.last().id@ != id {
            rest.push(s.last())
        } else {
            rest
        }
    }
}

/// Edits the base URL of a provider that allows it.
pub fn change_post_process_base_url_setting(
    settings: &mut AppSettings,
    provider_id: &str,
    base_url: String,
) -> (r: Result<(), SettingsError>)
    requires
        old(settings).wf(),
    ensures
        final(settings).wf(),
        ({
            let pre = *old(settings);
            let post = *final(settings);
            if !provider_exists(pre.post_process_providers@, provider_id@) {
                r == Result::<(), SettingsError>::Err(SettingsError::NotFound) && post == pre
            } else {
                exists|i: int|
                    #![auto]
                    provider_index_at(pre.post_process_providers@, provider_id@, i) && (
                    if pre.post_process_providers@[i].allow_base_url_edit {
                        let np = post.post_process_providers@[i];
                        let op = pre.post_process_providers@[i];
                        r == Result::<(), SettingsError>::Ok(()) && post == (AppSettings {
                            post_process_providers: post.post_process_providers,
                            ..pre
                        }) && post.post_process_providers@ == pre.post_process_providers@.update(
                            i,
                            np,
                        ) && np.id == op.id && np.label == op.label && np.models_endpoint
                            == op.models_endpoint && np.allow_base_url_edit && np.base_url
                            == base_url
                    } else {
                        r == Result::<(), SettingsError>::Err(SettingsError::BaseUrlNotEditable)
                            && post == pre
                    })
            }
        }),
{
    let n = settings.post_process_providers.len();
    let mut i: usize = 0;
    while i < n
        invariant
            i <= n,
            *settings == *old(settings),
            old(settings).wf(),
            n == settings.post_process_providers@.len(),
            forall|j: int| 0 <= j < i ==> settings.post_process_providers@[j].id@
                != provider_id@,
        decreases n - i,
    {
        if str_eq(settings.post_process_providers[i].id.as_str(), provider_id) {
            proof {
                assert(provider_index_at(
                    old(settings).post_process_providers@,
                    provider_id@,
                    i as int,
                ));
                assert(provider_exists(old(settings).post_process_providers@, provider_id@)) by {
                    assert(old(settings).post_process_providers@[i as int].id@ == provider_id@);
                }
            }
            if !settings.post_process_providers[i].allow_base_url_edit {
                return Err(SettingsError::BaseUrlNotEditable);
            }
            let p = &settings.post_process_providers[i];
            let updated = PostProcessProvider {
                id: p.id.clone(),
                label: p.label.clone(),
                base_url,
                models_endpoint: clone_opt_string(&p.models_endpoint),
                allow_base_url_edit: p.allow_base_url_edit,
            };
            settings.post_process_providers.set(i, updated);
            return Ok(());
        }
        i += 1;
    }
    proof {
        assert(!provider_exists(settings.post_process_providers@, provider_id@)) by {
            if provider_exists(settings.post_process_providers@, provider_id@) {
                let j = choose|j: int|
                    0 <= j < settings.post_process_providers@.len()
                        && settings.post_process_providers@[j].id@ == provider_id@;
            }
        }
    }
    Err(SettingsError::NotFound)
}

/// Deletes the prompt with the given id; the last remaining prompt
/// cannot be deleted, and deleting the selected prompt moves the
/// selection to the first prompt left.
pub fn delete_post_process_prompt(settings: &mut AppSettings, id: &str) -> (r: Result<
    (),
    SettingsError,
>)
    requires
        old(settings).wf(),
    ensures
        final(settings).wf(),
        ({
            let pre = *old(settings);
            let post = *final(settings);
            if pre.post_process_prompts@.len() <= 1 {
                r == Result::<(), SettingsError>::Err(SettingsError::LastPrompt) && post == pre
            } else if !prompt_exists(pre.post_process_prompts@, id@) {
                r == Result::<(), SettingsError>::Err(SettingsError::NotFound) && post == pre
            } else {
                r == Result::<(), SettingsError>::Ok(()) && post.post_process_prompts@
                    == prompts_without(pre.post_process_prompts@, id@) && (if (
                pre.post_process_selected_prompt_id matches Some(s) && s@ == id@) {
                    (if post.post_process_prompts@.len() > 0 {
                        post.post_process_selected_prompt_id matches Some(s2) && s2
                            == post.post_process_prompts@[0].id
                    } else {
                        post.post_process_selected_prompt_id is None
                    })
                } else {
                    post.post_process_selected_prompt_id == pre.post_process_selected_prompt_id
                }) && post == (AppSettings {
                    post_process_prompts: post.post_process_prompts,
                    post_process_selected_prompt_id: post.post_process_selected_prompt_id,
                    ..pre
                })
            }
        }),
{
    if settings.post_process_prompts.len() <= 1 {
        return Err(SettingsError::LastPrompt);
    }
    let n = settings.post_process_prompts.len();
    let mut kept: Vec<LLMPrompt> = Vec::new();
    let mut removed_any = false;
    let mut i: usize = 0;
    while i < n
        invariant
            i <= n,
            *settings == *old(settings),
            old(settings).wf(),
            n == settings.post_process_prompts@.len(),
            kept@ == prompts_without(settings.post_process_prompts@.take(i as int), id@),
            removed_any == exists|j: int|
                0 <= j < i && settings.post_process_prompts@[j].id@ == id@,
        decreases n - i,
    {
        let ghost pre = settings.post_process_prompts@.take(i as int);
        let ghost post = settings.post_process_prompts@.take(i as int + 1);
        proof {
            assert(post.drop_last() =~= pre);
            assert(post.last() == settings.post_process_prompts@[i as int]);
        }
        if str_eq(settings.post_process_prompts[i].id.as_str(), id) {
            removed_any = true;
            proof {
                assert(prompts_without(post, id@) =~= prompts_without(pre, id@));
            }
        } else {
            kept.push(settings.post_process_prompts[i].clone());
            proof {
                assert(prompts_without(post, id@) =~= prompts_without(pre, id@).push(post.last()));
            }
        }
        i += 1;
    }
    proof {
        assert(settings.post_process_prompts@.take(n as int) =~= settings.post_process_prompts@);
    }
    if !removed_any {
        proof {
            assert(!prompt_exists(settings.post_process_prompts@, id@));
        }
        return Err(SettingsError::NotFound);
    }
    proof {
        assert(prompt_exists(settings.post_process_prompts@, id@));
    }
    settings.post_process_prompts = kept;
    let sel_matches = match &settings.post_process_selected_prompt_id {
        Some(s) => str_eq(s.as_str(), id),
        None => false,
    };
    if sel_matches {
        if settings.post_process_prompts.len() > 0 {
            let first_id = settings.post_process_prompts[0].id.clone();
            settings.post_process_selected_prompt_id = Some(first_id);
        } else {
            settings.post_process_selected_prompt_id = None;
        }
    }
    Ok(())
}

/// The decimal digit for a value below ten.
pub open spec fn digit_char(d: nat) -> char {
    ((48 + d) as u8) as char
}

/// The decimal digits of a number, most significant first.
pub open spec fn decimal_digits(n: nat) -> Seq<char>
    decreases n,
{
    if n < 10 {
        seq![digit_char(n)]
    } else {
        decimal_digits(n / 10).push(digit_char(n % 10))
    }
}

/// The decimal digits of a number.
pub fn u64_to_decimal(n: u64) -> (r: Vec<char>)
    ensures
        r@ == decimal_digits(n as nat),
    decreases n,
{
    if n < 10 {
        let mut v: Vec<char> = Vec::new();
        let d = (48 + n as u8) as char;
        v.push(d);
        proof {
            assert(v@ =~= decimal_digits(n as nat));
        }
        v
    } else {
        let mut v = u64_to_decimal(n / 10);
        let d = (48 + (n % 10) as u8) as char;
        v.push(d);
        v
    }
}

/// Relies on chrono's `Utc::now` and `DateTime::timestamp_millis`: the
/// current time in milliseconds since the Unix epoch.  Non-negative,
/// because `Utc::now` refuses clocks set before the epoch.
#[verifier::external_body]
fn now_timestamp_millis() -> (r: i64)
    ensures
        r >= 0,
{
    chrono::Utc::now().timestamp_millis()
}

/// A fresh prompt id for the given timestamp.
fn make_prompt_id(ts: u64) -> (r: String)
    ensures
        r@ == "prompt_"@ + decimal_digits(ts as nat),
{
    let mut out = String::from_str("prompt_");
    let digits = u64_to_decimal(ts);
    let m = digits.len();
    let mut k: usize = 0;
    while k < m
        invariant
            k <= m,
            m == digits@.len(),
            digits@ == decimal_digits(ts as nat),
            out@ == "prompt_"@ + digits@.take(k as int),
        decreases m - k,
    {
        out.push(digits[k]);
        proof {
            assert(digits@.take(k as int).push(digits@[k as int]) =~= digits@.take(k as int + 1));
            assert(("prompt_"@ + digits@.take(k as int)).push(digits@[k as int]) =~= "prompt_"@
                + digits@.take(k as int + 1));
        }
        k += 1;
    }
    proof {
        assert(digits@.take(m as int) =~= digits@);
    }
    out
}

/// Adds a new prompt, under an id derived from the current time, and
/// returns it.
pub fn add_post_process_prompt(settings: &mut AppSettings, name: String, prompt: String) -> (r:
    Result<LLMPrompt, SettingsError>)
    requires
        old(settings).wf(),
    ensures
        final(settings).wf(),
        (r matches Ok(p) && final(settings).post_process_prompts@
            == old(settings).post_process_prompts@.push(p) && p.name == name && p.prompt == prompt
            && (exists|ts: nat| p.id@ == "prompt_"@ + decimal_digits(ts))),
        *final(settings) == (AppSettings {
            post_process_prompts: final(settings).post_process_prompts,
            ..*old(settings)
        }),
{
    let ts = now_timestamp_millis();
    let id = make_prompt_id(ts as u64);
    let new_prompt = LLMPrompt { id, name, prompt };
    settings.post_process_prompts.push(new_prompt.clone());
    proof {
        assert(new_prompt.id@ == "prompt_"@ + decimal_digits(ts as nat));
    }
    Ok(new_prompt)
}

/// The base URL with its trailing slashes removed.
pub open spec fn trim_trailing_slashes(s: Seq<char>) -> Seq<char>
    decreases s.len(),
{
    if s.len() > 0 && s[s.len() - 1] == '/' {
        trim_trailing_slashes(s.drop_last())
    } else {
        s
    }
}

/// The endpoint with its leading slashes removed.
pub open spec fn trim_leading_slashes(s: Seq<char>) -> Seq<char>
    decreases s.len(),
{
    if s.len() > 0 && s[0] == '/' {
        trim_leading_slashes(s.drop_first())
    } else {
        s
    }
}

/// The URL the model list is requested from: the base, one slash, then
/// the configured endpoint or `models`.
pub open spec fn models_url_spec(base: Seq<char>, ep: Option<Seq<char>>) -> Seq<char> {
    trim_trailing_slashes(base) + "/"@ + (match ep {
        Some(e) => trim_leading_slashes(e),
        None => "models"@,
    })
}

/// Builds the model-list URL from a provider's base URL and optional
/// endpoint.
pub fn models_request_url(base_url: &str, models_endpoint: &Option<String>) -> (r: String)
    ensures
        r@ == models_url_spec(
            base_url@,
            match *models_endpoint {
                Some(e) => Some(e@),
                None => None,
            },
        ),
{
    let n = base_url.unicode_len();
    proof {
        assert(base_url@.subrange(0, n as int) =~= base_url@);
    }
    let mut j: usize = n;
    while j > 0 && base_url.get_char(j - 1) == '/'
        invariant
            j <= n,
            n == base_url@.len(),
            trim_trailing_slashes(base_url@) == trim_trailing_slashes(
                base_url@.subrange(0, j as int),
            ),
        decreases j,
    {
        proof {
            let cur = base_url@.subrange(0, j as int);
            assert(cur.drop_last() =~= base_url@.subrange(0, j as int - 1));
        }
        j -= 1;
    }
    proof {
        let cur = base_url@.subrange(0, j as int);
        if j > 0 {
            assert(cur[cur.len() - 1] != '/');
        }
        assert(trim_trailing_slashes(base_url@) == cur);
    }
    let mut out = String::new();
    out.append(base_url.substring_char(0, j));
    out.append("/");
    match models_endpoint {
        Some(e) => {
            let es = e.as_str();
            let en = es.unicode_len();
            proof {
                assert(es@.subrange(0, en as int) =~= es@);
            }
            let mut k: usize = 0;
            while k < en && es.get_char(k) == '/'
                invariant
                    k <= en,
                    en == es@.len(),
                    trim_leading_slashes(es@) == trim_leading_slashes(
                        es@.subrange(k as int, en as int),
                    ),
                decreases en - k,
            {
                proof {
                    let cur = es@.subrange(k as int, en as int);
                    assert(cur.drop_first() =~= es@.subrange(k as int + 1, en as int));
                }
                k += 1;
            }
            proof {
                let cur = es@.subrange(k as int, en as int);
                if k < en {
                    assert(cur[0] != '/');
                }
                assert(trim_leading_slashes(es@) == cur);
            }
            out.append(es.substring_char(k, en));
        },
        None => {
            out.append("models");
        },
    }
    out
}

/// The authentication headers for a provider's model-list request: the
/// anthropic-style provider wants its version header and an `x-api-key`;
/// everything else carries a bearer token when a key is set.
pub open spec fn auth_headers_spec(pid: Seq<char>, key: Seq<char>) -> Seq<(Seq<char>, Seq<char>)> {
    if pid == "anthropic"@ {
        if key.len() > 0 {
            seq![("x-api-key"@, key), ("anthropic-version"@, "2023-06-01"@)]
        } else {
            seq![("anthropic-version"@, "2023-06-01"@)]
        }
    } else if key.len() > 0 {
        seq![("Authorization"@, "Bearer "@ + key)]
    } else {
        Seq::empty()
    }
}

/// The view of a header list.
pub open spec fn headers_view(s: Seq<(String, String)>) -> Seq<(Seq<char>, Seq<char>)> {
    s.map_values(|p: (String, String)| (p.0@, p.1@))
}

/// Builds the authentication headers for a provider's model-list
/// request.
pub fn models_auth_headers(provider_id: &str, api_key: &str) -> (r: Vec<(String, String)>)
    ensures
        headers_view(r@) == auth_headers_spec(provider_id@, api_key@),
{
    let mut r: Vec<(String, String)> = Vec::new();
    if str_eq(provider_id, "anthropic") {
        if api_key.unicode_len() > 0 {
            r.push((String::from_str("x-api-key"), String::from_str(api_key)));
        }
        r.push((String::from_str("anthropic-version"), String::from_str("2023-06-01")));
    } else if api_key.unicode_len() > 0 {
        let bearer = String::from_str("Bearer ").concat(api_key);
        r.push((String::from_str("Authorization"), bearer));
    }
    proof {
        assert(headers_view(r@) =~= auth_headers_spec(provider_id@, api_key@));
    }
    r
}

/// Whitespace-only sequences trim to nothing.
proof fn lemma_trim_blank(s: Seq<char>)
    requires
        forall|i: int| 0 <= i < s.len() ==> is_space_char(s[i]),
    ensures
        trim_seq(s).len() == 0,
    decreases s.len(),
{
    if s.len() > 0 {
        assert(forall|i: int|
            0 <= i < s.drop_first().len() ==> is_space_char(s.drop_first()[i]));
        lemma_trim_blank(s.drop_first());
        assert(trim_front(s) == trim_front(s.drop_first()));
    } else {
        assert(trim_front(s) == s);
        assert(trim_back(s) == s);
    }
}

/// A sequence whose first character is not whitespace keeps it through
/// a trailing trim.
proof fn lemma_trim_back_keeps_head(s: Seq<char>)
    requires
        s.len() > 0,
        !is_space_char(s[0]),
    ensures
        trim_back(s).len() > 0,
    decreases s.len(),
{
    if is_space_char(s[s.len() - 1]) {
        assert(s.drop_last()[0] == s[0]);
        lemma_trim_back_keeps_head(s.drop_last());
    }
}

/// Whether the text is empty after trimming.
pub fn is_blank(s: &str) -> (r: bool)
    ensures
        r == (trim_seq(s@).len() == 0),
{
    let n = s.unicode_len();
    proof {
        assert(s@.subrange(0, n as int) =~= s@);
    }
    let mut i: usize = 0;
    while i < n
        invariant
            i <= n,
            n == s@.len(),
            forall|j: int| 0 <= j < i ==> is_space_char(s@[j]),
            trim_front(s@) == trim_front(s@.subrange(i as int, n as int)),
        decreases n - i,
    {
        let c = s.get_char(i);
        if !is_space(c) {
            proof {
                let cur = s@.subrange(i as int, n as int);
                assert(cur[0] == s@[i as int]);
                assert(trim_front(s@) == cur);
                lemma_trim_back_keeps_head(cur);
            }
            return false;
        }
        proof {
            let cur = s@.subrange(i as int, n as int);
            assert(cur.drop_first() =~= s@.subrange(i as int + 1, n as int));
        }
        i += 1;
    }
    proof {
        lemma_trim_blank(s@);
    }
    true
}

/// A planned model-list request: where to ask and which headers to send.
pub struct ModelsRequest {
    pub url: String,
    pub headers: Vec<(String, String)>,
}

/// Plans the model-list request for a provider: refuses an unknown
/// provider, requires an API key for every provider but the custom one,
/// and otherwise yields the URL and authentication headers to use.
pub fn plan_models_request(settings: &AppSettings, provider_id: &str) -> (r: Result<
    ModelsRequest,
    SettingsError,
>)
    requires
        settings.wf(),
    ensures
        (if !provider_exists(settings.post_process_providers@, provider_id@) {
            r == Result::<ModelsRequest, SettingsError>::Err(SettingsError::NotFound)
        } else {
            exists|i: int|
                #![auto]
                provider_index_at(settings.post_process_providers@, provider_id@, i) && ({
                    let p = settings.post_process_providers@[i];
                    let key = if settings.post_process_api_keys@.contains_key(provider_id@) {
                        settings.post_process_api_keys@[provider_id@]
                    } else {
                        Seq::<char>::empty()
                    };
                    if trim_seq(key).len() == 0 && p.id@ != "custom"@ {
                        r == Result::<ModelsRequest, SettingsError>::Err(
                            SettingsError::ApiKeyRequired,
                        )
                    } else {
                        r matches Ok(q) && q.url@ == models_url_spec(
                            p.base_url@,
                            opt_str_view(p.models_endpoint),
                        ) && headers_view(q.headers@) == auth_headers_spec(p.id@, key)
                    }
                })
        }),
{
    let n = settings.post_process_providers.len();
    let mut i: usize = 0;
    while i < n
        invariant
            i <= n,
            settings.wf(),
            n == settings.post_process_providers@.len(),
            forall|j: int| 0 <= j < i ==> settings.post_process_providers@[j].id@
                != provider_id@,
        decreases n - i,
    {
        if str_eq(settings.post_process_providers[i].id.as_str(), provider_id) {
            proof {
                assert(provider_index_at(
                    settings.post_process_providers@,
                    provider_id@,
                    i as int,
                ));
                assert(provider_exists(settings.post_process_providers@, provider_id@)) by {
                    assert(settings.post_process_providers@[i as int].id@ == provider_id@);
                }
            }
            let p = &settings.post_process_providers[i];
            let key = match settings.post_process_api_keys.get(provider_id) {
                Some(k) => k.clone(),
                None => String::new(),
            };
            if is_blank(key.as_str()) && !str_eq(p.id.as_str(), "custom") {
                return Err(SettingsError::ApiKeyRequired);
            }
            let url = models_request_url(p.base_url.as_str(), &p.models_endpoint);
            let headers = models_auth_headers(p.id.as_str(), key.as_str());
            return Ok(ModelsRequest { url, headers });
        }
        i += 1;
    }
    proof {
        assert(!provider_exists(settings.post_process_providers@, provider_id@)) by {
            if provider_exists(settings.post_process_providers@, provider_id@) {
                let j = choose|j: int|
                    0 <= j < settings.post_process_providers@.len()
                        && settings.post_process_providers@[j].id@ == provider_id@;
            }
        }
    }
    Err(SettingsError::NotFound)
}

/// One entry of a provider's model-list reply, as the embedding layer
/// hands it over: the entry's `id` and `name` fields where they were
/// strings.
pub struct ModelEntry {
    pub id: Option<String>,
    pub name: Option<String>,
}

/// A provider's model-list reply, reduced to the two shapes the core
/// understands: an object with a `data` array of entries, a plain array
/// whose string elements are kept, or anything else.
pub enum ModelsDoc {
    DataList(Vec<ModelEntry>),
    PlainList(Vec<Option<String>>),
    Other,
}

/// The name one entry contributes: its id, else its name, else nothing.
pub open spec fn entry_pick(e: ModelEntry) -> Option<Seq<char>> {
    match e.id {
        Some(s) => Some(s@),
        None => match e.name {
            Some(s) => Some(s@),
            None => None,
        },
    }
}

/// The present values of a sequence of optional names, in order.
pub open spec fn picked(s: Seq<Option<Seq<char>>>) -> Seq<Seq<char>>
    decreases s.len(),
{
    if s.len() == 0 {
        Seq::empty()
    } else {
        let rest = picked(s.drop_last());
        match s.last() {
            Some(x) => rest.push(x),
            None => rest,
        }
    }
}

/// The model names a reply document holds.
pub open spec fn doc_model_names(d: ModelsDoc) -> Seq<Seq<char>> {
    match d {
        ModelsDoc::DataList(v) => picked(v@.map_values(|e: ModelEntry| entry_pick(e))),
        ModelsDoc::PlainList(v) => picked(v@.map_values(|o: Option<String>| opt_str_view(o))),
        ModelsDoc::Other => Seq::empty(),
    }
}

/// Extracts the model names from a reply document: each entry's id,
/// else its name; in a plain array, each string element.
pub fn extract_model_names(doc: &ModelsDoc) -> (r: Vec<String>)
    ensures
        r@.map_values(|s: String| s@) == doc_model_names(*doc),
{
    let mut out: Vec<String> = Vec::new();
    match doc {
        ModelsDoc::DataList(v) => {
            let ghost opts = v@.map_values(|e: ModelEntry| entry_pick(e));
            let n = v.len();
            let mut i: usize = 0;
            while i < n
                invariant
                    i <= n,
                    n == v@.len(),
                    opts == v@.map_values(|e: ModelEntry| entry_pick(e)),
                    out@.map_values(|s: String| s@) == picked(opts.take(i as int)),
                decreases n - i,
            {
                proof {
                    assert(opts.take(i as int + 1).drop_last() =~= opts.take(i as int));
                    assert(opts.take(i as int + 1).last() == opts[i as int]);
                    assert(opts[i as int] == entry_pick(v@[i as int]));
                }
                match &v[i].id {
                    Some(s) => {
                        out.push(s.clone());
                        proof {
                            assert(out@.map_values(|s: String| s@) =~= picked(
                                opts.take(i as int + 1),
                            ));
                        }
                    },
                    None => {
                        match &v[i].name {
                            Some(s) => {
                                out.push(s.clone());
                                proof {
                                    assert(out@.map_values(|s: String| s@) =~= picked(
                                        opts.take(i as int + 1),
                                    ));
                                }
                            },
                            None => {},
                        }
                    },
                }
                i += 1;
            }
            proof {
                assert(opts.take(n as int) =~= opts);
            }
        },
        ModelsDoc::PlainList(v) => {
            let ghost opts = v@.map_values(|o: Option<String>| opt_str_view(o));
            let n = v.len();
            let mut i: usize = 0;
            while i < n
                invariant
                    i <= n,
                    n == v@.len(),
                    opts == v@.map_values(|o: Option<String>| opt_str_view(o)),
                    out@.map_values(|s: String| s@) == picked(opts.take(i as int)),
                decreases n - i,
            {
                proof {
                    assert(opts.take(i as int + 1).drop_last() =~= opts.take(i as int));
                    assert(opts.take(i as int + 1).last() == opts[i as int]);
                    assert(opts[i as int] == opt_str_view(v@[i as int]));
                }
                match &v[i] {
                    Some(s) => {
                        out.push(s.clone());
                        proof {
                            assert(out@.map_values(|s: String| s@) =~= picked(
                                opts.take(i as int + 1),
                            ));
                        }
                    },
                    None => {},
                }
                i += 1;
            }
            proof {
                assert(opts.take(n as int) =~= opts);
            }
        },
        ModelsDoc::Other => {},
    }
    proof {
        if out@.len() == 0 {
            assert(out@.map_values(|s: String| s@) =~= Seq::<Seq<char>>::empty());
        }
    }
    out
}

} // verus!
