use std::time::Duration;

use snb::event::{Chat, ContentItem, Event, Sender};
use snb::example::{echo, echo_arg_rewrite, echo_handler, log_hook, ping, reply_to};
use snb::session::{SessionKey, SessionManager, SessionState};
use snb::session_store::InMemorySessionManager;

fn from_user(text: &str) -> Event {
    let mut e = Event::message("tg", text).with_reply_plugin("tg_adapter");
    let m = e.message.as_mut().unwrap();
    m.chat = Chat::new("c1");
    m.sender = Some(Sender::new("u1"));
    m.id = Some("m9".to_string());
    e
}

#[test]
fn ping_answers_pong_to_the_sender() {
    let req = from_user("/ping");
    let resp = ping(&req);
    assert_eq!(resp.source, "MyPlugin");
    assert_eq!(resp.target_plugin.as_deref(), Some("tg_adapter"));
    let m = resp.message.unwrap();
    assert_eq!(m.text(), "pong!");
    assert_eq!(m.chat_id(), "c1");
    assert_eq!(m.reply_to.as_deref(), Some("m9"));
}

#[test]
fn echo_with_args_answers_them() {
    let mut sm = InMemorySessionManager::new(10, Duration::from_secs(60));
    let resp = echo(&mut sm, &from_user("/echo hi"), "hi");
    assert_eq!(resp.message.unwrap().text(), "hi");
    assert_eq!(sm.get_state(&SessionKey::private("c1", "u1")), SessionState::Active);
}

#[test]
fn bare_echo_then_next_message_is_echoed_once() {
    let mut sm = InMemorySessionManager::new(10, Duration::from_secs(60));
    let resp = echo(&mut sm, &from_user("/echo"), "");
    assert_eq!(resp.message.unwrap().text(), "Send me a message to echo.");
    let key = SessionKey::private("c1", "u1");
    assert_eq!(sm.get_state(&key), SessionState::WaitingForInput);

    let answer = echo_handler(&mut sm, &from_user("say this")).unwrap();
    assert_eq!(answer.message.unwrap().text(), "say this");
    assert_eq!(sm.get_state(&key), SessionState::Active);
    assert_eq!(sm.message_count(&key), 0);
    assert!(echo_handler(&mut sm, &from_user("again")).is_none());
}

#[test]
fn echo_handler_ignores_other_users() {
    let mut sm = InMemorySessionManager::new(10, Duration::from_secs(60));
    echo(&mut sm, &from_user("/echo"), "");
    let mut other = from_user("hello");
    other.message.as_mut().unwrap().sender = Some(Sender::new("u2"));
    assert!(echo_handler(&mut sm, &other).is_none());
    assert_eq!(sm.get_state(&SessionKey::private("c1", "u1")), SessionState::WaitingForInput);
}

#[test]
fn reply_without_a_message_goes_nowhere_in_particular() {
    let req = Event::command("tg", "ping", "");
    let resp = reply_to(&req, "x");
    let m = resp.message.unwrap();
    assert_eq!(m.chat_id(), "");
    assert!(m.reply_to.is_none());
    assert!(resp.target_plugin.is_none());
}

#[test]
fn hooks_rewrite_what_they_should() {
    let mut e = Event::message("a", "hook");
    log_hook(&mut e);
    let m = e.message.as_ref().unwrap();
    assert_eq!(m.text(), "hooked");
    assert!(matches!(m.content[0], ContentItem::Text { .. }));
    let mut e = Event::message("a", "hooks");
    log_hook(&mut e);
    assert_eq!(e.message.unwrap().text(), "hooks");

    let mut c = Event::command("a", "echo", "rewrite");
    echo_arg_rewrite(&mut c);
    assert_eq!(c.command.unwrap().args, "rewritten by hook");
    let mut c = Event::command("a", "echo", "keep");
    echo_arg_rewrite(&mut c);
    assert_eq!(c.command.unwrap().args, "keep");
}
