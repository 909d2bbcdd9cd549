//! Configuration resolution, enable flags, and reply construction.

use openai_bridge::config::{
    is_enabled, resolve_chat_settings, resolve_stt_settings, resolve_tts_settings,
};
use openai_bridge::errors::ConfigError;
use openai_bridge::message::{InboundMessage, MessageType};

fn s(text: &str) -> String {
    text.to_string()
}

#[test]
fn chat_settings_require_api_key() {
    let r = resolve_chat_settings(None, Some(s("model")), Some(s("intro")));
    assert_eq!(r.unwrap_err(), ConfigError::MissingApiKey);
}

#[test]
fn chat_settings_fill_defaults() {
    let cfg = resolve_chat_settings(Some(s("key")), None, None).unwrap();
    assert_eq!(cfg.api_key, "key");
    assert_eq!(cfg.model, "gpt-4o");
    assert_eq!(cfg.intro, "");
}

#[test]
fn chat_settings_keep_configured_values() {
    let cfg = resolve_chat_settings(Some(s("key")), Some(s("other-model")), Some(s("Hello")))
        .unwrap();
    assert_eq!(cfg.model, "other-model");
    assert_eq!(cfg.intro, "Hello");
}

#[test]
fn stt_settings_fill_defaults() {
    let cfg = resolve_stt_settings(Some(s("key")), None, None).unwrap();
    assert_eq!(cfg.model, "whisper-1");
    assert_eq!(cfg.language, None);
    let with_language = resolve_stt_settings(Some(s("key")), None, Some(s("it"))).unwrap();
    assert_eq!(with_language.language, Some(s("it")));
    assert_eq!(
        resolve_stt_settings(None, None, None).unwrap_err(),
        ConfigError::MissingApiKey
    );
}

#[test]
fn tts_settings_fill_defaults() {
    let cfg = resolve_tts_settings(Some(s("key")), None, None).unwrap();
    assert_eq!(cfg.model, "tts-1");
    assert_eq!(cfg.voice, "alloy");
    let custom = resolve_tts_settings(Some(s("key")), Some(s("tts-1-hd")), Some(s("nova")))
        .unwrap();
    assert_eq!(custom.model, "tts-1-hd");
    assert_eq!(custom.voice, "nova");
    assert_eq!(
        resolve_tts_settings(None, None, None).unwrap_err(),
        ConfigError::MissingApiKey
    );
}

#[test]
fn enable_flag_accepts_exactly_true() {
    assert!(is_enabled(Some(s("true"))));
    assert!(!is_enabled(Some(s("false"))));
    assert!(!is_enabled(Some(s("TRUE"))));
    assert!(!is_enabled(Some(s(""))));
    assert!(!is_enabled(None));
}

#[test]
fn reply_takes_first_topic_and_keeps_the_rest() {
    let msg = InboundMessage {
        sender: s("alice"),
        message_type: MessageType::Text,
        text: s("hello"),
        params: vec![(s("k"), s("v"))],
        response_topics: vec![s("first.topic"), s("second.topic")],
    };
    let (topic, out) = msg.reply(s("answer"), MessageType::Text).unwrap();
    assert_eq!(topic, "first.topic");
    assert_eq!(out.text, "answer");
    assert_eq!(out.message_type, MessageType::Text);
    assert_eq!(out.sender, "alice");
    assert_eq!(out.params, vec![(s("k"), s("v"))]);
    assert_eq!(out.response_topics, vec![s("second.topic")]);
}

#[test]
fn reply_without_topics_fails() {
    let msg = InboundMessage {
        sender: s("alice"),
        message_type: MessageType::Text,
        text: s("hello"),
        params: Vec::new(),
        response_topics: Vec::new(),
    };
    assert!(msg.reply(s("answer"), MessageType::Text).is_err());
}
