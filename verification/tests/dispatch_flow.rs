//! The topic dispatcher: routing, pass-through, the capability fold, the
//! debug listing, lifecycle events, and replies.

use openai_bridge::chat::{Chat, ChatChoice};
use openai_bridge::conversation::Role;
use openai_bridge::dispatch::{lifecycle_events, DispatchPlan, Dispatcher, TopicConfig};
use openai_bridge::errors::DispatchError;
use openai_bridge::message::{InboundMessage, MessageType};

fn s(text: &str) -> String {
    text.to_string()
}

fn new_dispatcher(intro: &str) -> Dispatcher {
    let chat = Chat::new(s("model"), s(intro));
    Dispatcher::new(TopicConfig::defaults(), s("/tmp"), chat)
}

fn message(sender: &str, message_type: MessageType, text: &str) -> InboundMessage {
    InboundMessage {
        sender: s(sender),
        message_type,
        text: s(text),
        params: Vec::new(),
        response_topics: vec![s("reply.here")],
    }
}

#[test]
fn default_topics() {
    let t = TopicConfig::defaults();
    assert_eq!(t.chat, "chat");
    assert_eq!(t.chat_debug, "chat.debug");
    assert_eq!(t.info_request, "module.info.request");
    assert_eq!(t.info_response, "module.info.response");
    assert_eq!(t.stt, "stt");
    assert_eq!(t.tts, "tts");
}

#[test]
fn unknown_topic_is_refused() {
    let mut d = new_dispatcher("");
    let msg = message("alice", MessageType::Text, "hello");
    let r = d.dispatch(&s("nowhere"), &msg);
    assert_eq!(r.unwrap_err(), DispatchError::UnknownTopic);
}

#[test]
fn chat_refuses_non_text_and_keeps_store() {
    let mut d = new_dispatcher("");
    let msg = message("alice", MessageType::Audio, "payload");
    let r = d.dispatch(&s("chat"), &msg);
    assert_eq!(r.unwrap_err(), DispatchError::UnsupportedMessageType);
    assert_eq!(d.chat.history_of(&s("alice")).len(), 0);
}

#[test]
fn chat_text_plans_provider_call() {
    let mut d = new_dispatcher("Hi");
    let msg = message("alice", MessageType::Text, "hello");
    let plan = d.dispatch(&s("chat"), &msg).unwrap();
    match plan {
        DispatchPlan::ChatCall { user, request } => {
            assert_eq!(user, "alice");
            assert_eq!(request.len(), 2);
            assert_eq!(request[0].role, Role::System);
            assert_eq!(request[1].role, Role::User);
            assert_eq!(request[1].content, "hello");
        }
        _ => panic!("expected a chat call"),
    }
    let history = d.chat.history_of(&s("alice"));
    assert_eq!(history.len(), 1);
    assert_eq!(history[0].role, Role::User);
    assert_eq!(history[0].content, "hello");
}

#[test]
fn chat_scenario_with_provider_stub() {
    let mut d = new_dispatcher("");
    let msg = message("alice", MessageType::Text, "hello");
    let plan = d.dispatch(&s("chat"), &msg).unwrap();
    let user = match plan {
        DispatchPlan::ChatCall { user, .. } => user,
        _ => panic!("expected a chat call"),
    };
    // the provider stub answers "hi there"
    let choices = vec![ChatChoice { content: Some(s("hi there")) }];
    let text = d.chat.complete_exchange(&user, &choices).unwrap();
    assert_eq!(text, "hi there");

    let history = d.chat.history_of(&s("alice"));
    assert_eq!(history.len(), 2);
    assert_eq!(history[0].role, Role::User);
    assert_eq!(history[0].content, "hello");
    assert_eq!(history[1].role, Role::Assistant);
    assert_eq!(history[1].content, "hi there");

    let (topic, reply) = msg.reply(text, MessageType::Text).unwrap();
    assert_eq!(topic, "reply.here");
    assert_eq!(reply.message_type, MessageType::Text);
    assert_eq!(reply.text, "hi there");
}

#[test]
fn debug_topic_lists_capabilities() {
    let mut d = new_dispatcher("Hi");
    let msg = message("alice", MessageType::Text, "");
    let plan = d.dispatch(&s("chat.debug"), &msg).unwrap();
    match plan {
        DispatchPlan::Reply { message_type, text } => {
            assert_eq!(message_type, MessageType::Text);
            assert_eq!(text, "");
        }
        _ => panic!("expected a reply"),
    }

    d.chat.update_capability("weather", "reports weather");
    let plan = d.dispatch(&s("chat.debug"), &msg).unwrap();
    match plan {
        DispatchPlan::Reply { message_type, text } => {
            assert_eq!(message_type, MessageType::Text);
            assert_eq!(text, "weather: reports weather");
        }
        _ => panic!("expected a reply"),
    }
}

#[test]
fn discovery_response_folds_params() {
    let mut d = new_dispatcher("");
    let mut msg = message("peer", MessageType::ModuleInfo, "");
    msg.params = vec![
        (s("weather"), s("old")),
        (s("lights"), s("controls lights")),
        (s("weather"), s("reports weather")),
    ];
    let plan = d.dispatch(&s("module.info.response"), &msg).unwrap();
    assert!(matches!(plan, DispatchPlan::Updated));
    let caps = d.chat.get_capabilities();
    assert_eq!(caps.len(), 2);
    assert_eq!(caps[0], (s("weather"), s("reports weather")));
    assert_eq!(caps[1], (s("lights"), s("controls lights")));
}

#[test]
fn stt_text_passes_through_unchanged() {
    let mut d = new_dispatcher("");
    let msg = message("alice", MessageType::Text, "already text");
    let plan = d.dispatch(&s("stt"), &msg).unwrap();
    match plan {
        DispatchPlan::Reply { message_type, text } => {
            assert_eq!(message_type, MessageType::Text);
            assert_eq!(text, "already text");
        }
        _ => panic!("expected a pass-through reply"),
    }
}

#[test]
fn stt_photo_passes_through_with_its_type() {
    let mut d = new_dispatcher("");
    let msg = message("alice", MessageType::Photo, "photo.png");
    let plan = d.dispatch(&s("stt"), &msg).unwrap();
    match plan {
        DispatchPlan::Reply { message_type, text } => {
            assert_eq!(message_type, MessageType::Photo);
            assert_eq!(text, "photo.png");
        }
        _ => panic!("expected a pass-through reply"),
    }
}

#[test]
fn stt_audio_is_transcribed() {
    let mut d = new_dispatcher("");
    let msg = message("alice", MessageType::Audio, "voice.mp3");
    let plan = d.dispatch(&s("stt"), &msg).unwrap();
    match plan {
        DispatchPlan::Transcribe { file } => assert_eq!(file, "voice.mp3"),
        _ => panic!("expected a transcription plan"),
    }
}

#[test]
fn tts_plans_synthesis_into_generated_path() {
    let mut d = new_dispatcher("");
    let msg = message("alice", MessageType::Text, "say this");
    let plan = d.dispatch(&s("tts"), &msg).unwrap();
    match plan {
        DispatchPlan::Synthesize { text, output_path } => {
            assert_eq!(text, "say this");
            assert!(output_path.starts_with("/tmp/"));
            assert!(output_path.ends_with(".mp3"));
            // "/tmp/" + a 36-character identifier + ".mp3"
            assert_eq!(output_path.len(), 5 + 36 + 4);
        }
        _ => panic!("expected a synthesis plan"),
    }
}

#[test]
fn generated_audio_paths_differ() {
    let mut d = new_dispatcher("");
    let msg = message("alice", MessageType::Text, "say this");
    let first = d.dispatch(&s("tts"), &msg).unwrap();
    let second = d.dispatch(&s("tts"), &msg).unwrap();
    let path = |plan: DispatchPlan| match plan {
        DispatchPlan::Synthesize { output_path, .. } => output_path,
        _ => panic!("expected a synthesis plan"),
    };
    assert_ne!(path(first), path(second));
}

#[test]
fn lifecycle_events_bracket_provider_calls() {
    let chat_plan = DispatchPlan::ChatCall { user: s("alice"), request: Vec::new() };
    let (started, ended) = lifecycle_events(&chat_plan).unwrap();
    assert_eq!(started, "chat_started");
    assert_eq!(ended, "chat_ended");

    let stt_plan = DispatchPlan::Transcribe { file: s("voice.mp3") };
    let (started, ended) = lifecycle_events(&stt_plan).unwrap();
    assert_eq!(started, "stt_started");
    assert_eq!(ended, "stt_ended");

    let tts_plan = DispatchPlan::Synthesize { text: s("x"), output_path: s("x.mp3") };
    let (started, ended) = lifecycle_events(&tts_plan).unwrap();
    assert_eq!(started, "tts_started");
    assert_eq!(ended, "tts_ended");

    let reply = DispatchPlan::Reply { message_type: MessageType::Text, text: s("") };
    assert!(lifecycle_events(&reply).is_none());
    assert!(lifecycle_events(&DispatchPlan::Updated).is_none());
}

#[test]
fn startup_subscribes_to_chat_debug_and_discovery() {
    let t = TopicConfig::defaults();
    let base = t.startup_subscriptions(false, false);
    assert_eq!(base, vec![s("chat"), s("chat.debug"), s("module.info.response")]);
    let all = t.startup_subscriptions(true, true);
    assert_eq!(
        all,
        vec![s("chat"), s("chat.debug"), s("module.info.response"), s("stt"), s("tts")]
    );
}
