//! The conversation manager: exchanges, histories, and the composed
//! system prompt.

use openai_bridge::chat::{Chat, ChatChoice};
use openai_bridge::conversation::Role;
use openai_bridge::errors::ProviderError;

fn s(text: &str) -> String {
    text.to_string()
}

fn exchange(chat: &mut Chat, user: &str, text: &str, reply: &str) -> String {
    let user = s(user);
    let _request = chat.begin_exchange(&user, s(text));
    let choices = vec![ChatChoice { content: Some(s(reply)) }];
    chat.complete_exchange(&user, &choices).unwrap()
}

#[test]
fn two_exchanges_leave_four_turns_in_order() {
    let mut chat = Chat::new(s("model"), s("intro"));
    let r1 = exchange(&mut chat, "alice", "first question", "first answer");
    let r2 = exchange(&mut chat, "alice", "second question", "second answer");
    assert_eq!(r1, "first answer");
    assert_eq!(r2, "second answer");

    let history = chat.history_of(&s("alice"));
    assert_eq!(history.len(), 4);
    assert_eq!(history[0].role, Role::User);
    assert_eq!(history[0].content, "first question");
    assert_eq!(history[1].role, Role::Assistant);
    assert_eq!(history[1].content, "first answer");
    assert_eq!(history[2].role, Role::User);
    assert_eq!(history[2].content, "second question");
    assert_eq!(history[3].role, Role::Assistant);
    assert_eq!(history[3].content, "second answer");
}

#[test]
fn histories_are_per_user() {
    let mut chat = Chat::new(s("model"), s(""));
    exchange(&mut chat, "alice", "hi from alice", "hello alice");
    exchange(&mut chat, "bob", "hi from bob", "hello bob");

    let alice = chat.history_of(&s("alice"));
    let bob = chat.history_of(&s("bob"));
    assert_eq!(alice.len(), 2);
    assert_eq!(bob.len(), 2);
    assert_eq!(alice[0].content, "hi from alice");
    assert_eq!(bob[0].content, "hi from bob");
    assert_eq!(chat.history_of(&s("carol")).len(), 0);
}

#[test]
fn request_holds_system_turn_then_history() {
    let mut chat = Chat::new(s("model"), s("Hi"));
    chat.update_capability("weather", "reports weather");
    let request = chat.begin_exchange(&s("alice"), s("hello"));
    assert_eq!(request.len(), 2);
    assert_eq!(request[0].role, Role::System);
    assert!(request[0].content.starts_with("Hi"));
    assert!(request[0].content.contains("{ \"cap\": \"weather\", \"msg\": \"reports weather\" }"));
    assert_eq!(request[1].role, Role::User);
    assert_eq!(request[1].content, "hello");
}

#[test]
fn empty_choices_are_an_empty_response() {
    let mut chat = Chat::new(s("model"), s(""));
    let _ = chat.begin_exchange(&s("alice"), s("hello"));
    let r = chat.complete_exchange(&s("alice"), &vec![]);
    assert_eq!(r, Err(ProviderError::EmptyResponse));
    // the user's turn stays; the failed call records nothing
    assert_eq!(chat.history_of(&s("alice")).len(), 1);
}

#[test]
fn choice_without_content_is_an_empty_response() {
    let mut chat = Chat::new(s("model"), s(""));
    let _ = chat.begin_exchange(&s("alice"), s("hello"));
    let choices = vec![ChatChoice { content: None }];
    let r = chat.complete_exchange(&s("alice"), &choices);
    assert_eq!(r, Err(ProviderError::EmptyResponse));
    assert_eq!(chat.history_of(&s("alice")).len(), 1);
}

#[test]
fn prompt_recomposed_after_capability_update() {
    let mut chat = Chat::new(s("model"), s("Hi"));
    let before = chat.compose_system_msg();
    assert_eq!(before, "Hi\n```\n[]\n```");
    chat.update_capability("weather", "reports weather");
    let after = chat.compose_system_msg();
    assert_eq!(after, "Hi\n```\n[{ \"cap\": \"weather\", \"msg\": \"reports weather\" }]\n```");
}

#[test]
fn duplicate_capability_keeps_latest_description() {
    let mut chat = Chat::new(s("model"), s(""));
    chat.update_capability("weather", "old description");
    chat.update_capability("weather", "new description");
    let caps = chat.get_capabilities();
    assert_eq!(caps.len(), 1);
    assert_eq!(caps[0].0, "weather");
    assert_eq!(caps[0].1, "new description");
}

#[test]
fn prompt_contains_record_per_entry() {
    let mut chat = Chat::new(s("model"), s("You are the hub."));
    chat.update_capability("weather", "reports weather");
    chat.update_capability("lights", "controls lights");
    let prompt = chat.compose_system_msg();
    assert!(prompt.starts_with("You are the hub."));
    assert!(prompt.contains("{ \"cap\": \"weather\", \"msg\": \"reports weather\" }"));
    assert!(prompt.contains("{ \"cap\": \"lights\", \"msg\": \"controls lights\" }"));
    assert_eq!(
        prompt,
        "You are the hub.\n```\n[{ \"cap\": \"weather\", \"msg\": \"reports weather\" },\n{ \"cap\": \"lights\", \"msg\": \"controls lights\" }]\n```"
    );
}
