//! Startup configuration: which keys are required, and which defaults
//! stand in for absent ones.
//!
//! The caller reads raw configuration values and hands them in as plain
//! options; resolution decides fatality (a missing API key) and fills in
//! the provider's default model identifiers.

use vstd::prelude::*;

use crate::errors::ConfigError;

verus! {

/// Relies on openai_api_rs's `GPT4_O` constant: the default chat model
/// identifier, `"gpt-4o"`.
#[verifier::external_body]
fn provider_default_chat_model() -> (r: String)
    ensures
        r@ == "gpt-4o"@,
{
    openai_api_rs::v1::common::GPT4_O.to_string()
}

/// Relies on openai_api_rs's `WHISPER_1` constant: the default
/// transcription model identifier, `"whisper-1"`.
#[verifier::external_body]
fn provider_default_stt_model() -> (r: String)
    ensures
        r@ == "whisper-1"@,
{
    openai_api_rs::v1::audio::WHISPER_1.to_string()
}

/// Relies on openai_api_rs's `TTS_1` constant: the default synthesis
/// model identifier, `"tts-1"`.
#[verifier::external_body]
fn provider_default_tts_model() -> (r: String)
    ensures
        r@ == "tts-1"@,
{
    openai_api_rs::v1::audio::TTS_1.to_string()
}

/// Relies on openai_api_rs's `VOICE_ALLOY` constant: the default
/// synthesis voice, `"alloy"`.
#[verifier::external_body]
fn provider_default_tts_voice() -> (r: String)
    ensures
        r@ == "alloy"@,
{
    openai_api_rs::v1::audio::VOICE_ALLOY.to_string()
}

/// What the chat subsystem needs at startup.
#[derive(Debug)]
pub struct ChatSettings {
    pub api_key: String,
    pub model: String,
    pub intro: String,
}

/// What the transcription subsystem needs at startup.
#[derive(Debug)]
pub struct SttSettings {
    pub api_key: String,
    pub model: String,
    pub language: Option<String>,
}

/// What the synthesis subsystem needs at startup.
#[derive(Debug)]
pub struct TtsSettings {
    pub api_key: String,
    pub model: String,
    pub voice: String,
}

/// Resolves the chat configuration: the API key is required, the model
/// defaults to the provider's default chat model, the intro defaults to
/// the empty text.
pub fn resolve_chat_settings(
    api_key: Option<String>,
    model: Option<String>,
    intro: Option<String>,
) -> (r: Result<ChatSettings, ConfigError>)
    ensures
        r is Ok <==> api_key is Some,
        r is Err ==> r->Err_0 is MissingApiKey,
        r is Ok ==> {
            let s = r->Ok_0;
            &&& s.api_key@ == api_key->0@
            &&& (model is Some ==> s.model@ == model->0@)
            &&& (model is None ==> s.model@ == "gpt-4o"@)
            &&& (intro is Some ==> s.intro@ == intro->0@)
            &&& (intro is None ==> s.intro@ == Seq::<char>::empty())
        },
{
    match api_key {
        None => Err(ConfigError::MissingApiKey),
        Some(key) => {
            let resolved_model = match model {
                Some(m) => m,
                None => provider_default_chat_model(),
            };
            let resolved_intro = match intro {
                Some(s) => s,
                None => String::new(),
            };
            Ok(ChatSettings { api_key: key, model: resolved_model, intro: resolved_intro })
        },
    }
}

/// Resolves the transcription configuration: the API key is required,
/// the model defaults to the provider's default transcription model, and
/// the optional language hint passes through.
pub fn resolve_stt_settings(
    api_key: Option<String>,
    model: Option<String>,
    language: Option<String>,
) -> (r: Result<SttSettings, ConfigError>)
    ensures
        r is Ok <==> api_key is Some,
        r is Err ==> r->Err_0 is MissingApiKey,
        r is Ok ==> {
            let s = r->Ok_0;
            &&& s.api_key@ == api_key->0@
            &&& (model is Some ==> s.model@ == model->0@)
            &&& (model is None ==> s.model@ == "whisper-1"@)
            &&& (s.language is Some <==> language is Some)
            &&& (language is Some ==> s.language->0@ == language->0@)
        },
{
    match api_key {
        None => Err(ConfigError::MissingApiKey),
        Some(key) => {
            let resolved_model = match model {
                Some(m) => m,
                None => provider_default_stt_model(),
            };
            Ok(SttSettings { api_key: key, model: resolved_model, language })
        },
    }
}

/// Resolves the synthesis configuration: the API key is required, the
/// model and the voice default to the provider's defaults.
pub fn resolve_tts_settings(
    api_key: Option<String>,
    model: Option<String>,
    voice: Option<String>,
) -> (r: Result<TtsSettings, ConfigError>)
    ensures
        r is Ok <==> api_key is Some,
        r is Err ==> r->Err_0 is MissingApiKey,
        r is Ok ==> {
            let s = r->Ok_0;
            &&& s.api_key@ == api_key->0@
            &&& (model is Some ==> s.model@ == model->0@)
            &&& (model is None ==> s.model@ == "tts-1"@)
            &&& (voice is Some ==> s.voice@ == voice->0@)
            &&& (voice is None ==> s.voice@ == "alloy"@)
        },
{
    match api_key {
        None => Err(ConfigError::MissingApiKey),
        Some(key) => {
            let resolved_model = match model {
                Some(m) => m,
                None => provider_default_tts_model(),
            };
            let resolved_voice = match voice {
                Some(v) => v,
                None => provider_default_tts_voice(),
            };
            Ok(TtsSettings { api_key: key, model: resolved_model, voice: resolved_voice })
        },
    }
}

/// Whether a per-feature enable flag is set: exactly the value `"true"`
/// counts as enabled.
pub fn is_enabled(flag: Option<String>) -> (r: bool)
    ensures
        r <==> flag is Some && flag->0@ == "true"@,
{
    match flag {
        None => false,
        Some(s) => {
            let yes = String::from_str("true");
            s == yes
        },
    }
}

} // verus!
