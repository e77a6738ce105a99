use snb::session::{SessionKey, SessionManager, SessionMessage, SessionState};
use snb::session_store::InMemorySessionManager;

fn test_sm() -> InMemorySessionManager {
    InMemorySessionManager::new(5, std::time::Duration::from_secs(3600))
}

#[test]
fn append_and_get_recent() {
    let mut sm = test_sm();
    let key = SessionKey::private("chat1", "user1");

    sm.append_message(&key, SessionMessage::user("hello"));
    sm.append_message(&key, SessionMessage::assistant("hi"));
    sm.append_message(&key, SessionMessage::user("bye"));

    let recent = sm.get_recent_messages(&key, 10);
    assert_eq!(recent.len(), 3);
    assert_eq!(recent[0].content, "hello");
    assert_eq!(recent[2].content, "bye");
}

#[test]
fn max_messages_eviction() {
    let mut sm = test_sm(); // max_messages = 5
    let key = SessionKey::group("chat1");

    for i in 0..10 {
        sm.append_message(&key, SessionMessage::user(&format!("msg {i}")));
    }

    let recent = sm.get_recent_messages(&key, 100);
    assert_eq!(recent.len(), 5);
    assert_eq!(recent[0].content, "msg 5");
    assert_eq!(recent[4].content, "msg 9");
}

#[test]
fn session_state() {
    let mut sm = test_sm();
    let key = SessionKey::private("chat1", "user1");

    assert_eq!(sm.get_state(&key), SessionState::Active);

    sm.set_state(&key, SessionState::WaitingForInput);
    assert_eq!(sm.get_state(&key), SessionState::WaitingForInput);
}

#[test]
fn clear_session() {
    let mut sm = test_sm();
    let key = SessionKey::group("chat1");

    sm.append_message(&key, SessionMessage::user("test"));
    assert_eq!(sm.message_count(&key), 1);

    sm.clear_session(&key);
    assert_eq!(sm.message_count(&key), 0);
    assert_eq!(sm.get_state(&key), SessionState::Active);
}

#[test]
fn get_all_messages() {
    let mut sm = test_sm();
    let key = SessionKey::group("g");

    sm.append_message(&key, SessionMessage::user("a"));
    sm.append_message(&key, SessionMessage::assistant("b"));

    let all = sm.get_all_messages(&key);
    assert_eq!(all.len(), 2);
}

#[test]
fn recent_messages_are_the_newest_in_order() {
    let mut sm = test_sm();
    let key = SessionKey::group("g");
    for i in 0..4 {
        sm.append_message(&key, SessionMessage::user(&format!("m{i}")));
    }
    let recent = sm.get_recent_messages(&key, 2);
    assert_eq!(recent.len(), 2);
    assert_eq!(recent[0].content, "m2");
    assert_eq!(recent[1].content, "m3");
}

#[test]
fn sessions_are_kept_apart() {
    let mut sm = test_sm();
    let a = SessionKey::private("chat", "alice");
    let b = SessionKey::private("chat", "bob");
    sm.append_message(&a, SessionMessage::user("x"));
    sm.set_state(&b, SessionState::Completed);
    assert_eq!(sm.message_count(&a), 1);
    assert_eq!(sm.message_count(&b), 0);
    assert_eq!(sm.get_state(&a), SessionState::Active);
    assert_eq!(sm.get_state(&b), SessionState::Completed);
    sm.clear_session(&a);
    assert_eq!(sm.get_state(&b), SessionState::Completed);
}

#[test]
fn idle_sessions_are_evicted_on_append() {
    let mut sm = InMemorySessionManager::with_ttl_nanos(5, 10);
    let a = SessionKey::group("a");
    let b = SessionKey::group("b");
    sm.append_message_at(&a, SessionMessage::user("old"), 0);
    sm.append_message_at(&b, SessionMessage::user("new"), 20);
    assert_eq!(sm.message_count_at(&a, 0), 0);
    assert_eq!(sm.message_count_at(&b, 20), 1);
}

#[test]
fn the_time_to_live_is_kept_to_the_nanosecond() {
    let mut sm = InMemorySessionManager::new(5, std::time::Duration::from_secs(3600));
    let key = SessionKey::group("g");
    sm.append_message_at(&key, SessionMessage::user("hi"), 7);
    assert_eq!(sm.message_count_at(&key, 7 + 3_600_000_000_000 - 1), 1);
    assert_eq!(sm.message_count_at(&key, 7 + 3_600_000_000_000), 0);
    let mut fine = InMemorySessionManager::new(5, std::time::Duration::new(0, 1500));
    fine.append_message_at(&key, SessionMessage::user("hi"), 0);
    assert_eq!(fine.message_count_at(&key, 1499), 1);
    assert_eq!(fine.message_count_at(&key, 1500), 0);
}

#[test]
fn session_key_text() {
    assert_eq!(SessionKey::private("c", "u").to_string_key(), "c:u");
    assert_eq!(SessionKey::group("c").to_string_key(), "c");
    assert_eq!(SessionKey::new("c", None).to_string_key(), "c");
}

#[test]
fn session_state_names_round_trip() {
    for s in [SessionState::Active, SessionState::WaitingForInput, SessionState::Completed] {
        assert_eq!(SessionState::parse(s.as_str()), Ok(s));
    }
    assert_eq!(SessionState::WaitingForInput.as_str(), "waiting");
    assert!(SessionState::parse("bogus").is_err());
}

#[test]
fn session_message_roles() {
    let m = SessionMessage::system("echo").with_event_id("e1");
    assert_eq!(m.role, "system");
    assert_eq!(m.content, "echo");
    assert_eq!(m.event_id.as_deref(), Some("e1"));
    assert_eq!(SessionMessage::new("bot", "x").role, "bot");
    let t = SessionMessage::at("user", "y", 12);
    assert_eq!(t.timestamp, 12);
}

#[test]
fn unknown_session_state_names_are_refused() {
    assert_eq!(SessionState::parse("bogus"), Err("unknown session state: \"bogus\"".to_string()));
    assert_eq!(SessionState::parse("completed"), Ok(SessionState::Completed));
}

#[test]
fn idle_sessions_read_as_gone() {
    let mut sm = InMemorySessionManager::with_ttl_nanos(5, 1);
    let key = SessionKey::private("c", "u");
    sm.append_message_at(&key, SessionMessage::user("hi"), 0);
    sm.set_state_at(&key, SessionState::WaitingForInput, 0);
    assert_eq!(sm.message_count_at(&key, 0), 1);
    assert_eq!(sm.get_state_at(&key, 0), SessionState::WaitingForInput);
    assert_eq!(sm.get_all_messages_at(&key, 0).len(), 1);
    assert!(sm.get_all_messages_at(&key, 1).is_empty());
    assert!(sm.get_recent_messages_at(&key, 10, 5).is_empty());
    assert_eq!(sm.message_count_at(&key, 1), 0);
    assert_eq!(sm.get_state_at(&key, 1), SessionState::Active);
}

#[test]
fn setting_the_state_of_an_idle_session_starts_afresh() {
    let mut sm = InMemorySessionManager::with_ttl_nanos(5, 10);
    let key = SessionKey::group("g");
    sm.append_message_at(&key, SessionMessage::user("old"), 0);
    sm.set_state_at(&key, SessionState::Completed, 20);
    assert_eq!(sm.get_state_at(&key, 20), SessionState::Completed);
    assert_eq!(sm.message_count_at(&key, 20), 0);
    sm.set_state_at(&key, SessionState::Active, 25);
    assert_eq!(sm.get_state_at(&key, 25), SessionState::Active);
}
