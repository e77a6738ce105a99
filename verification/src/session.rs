//! Conversation sessions: keys, messages, states and the session manager
//! interface.
use vstd::prelude::*;

use crate::text::{chars_of, debug_quoted, debug_str, owned, push_str, str_eq};

verus! {

/// The abstract value of a session key: the chat id and the optional user id.
pub type SessionKeyView = (Seq<char>, Option<Seq<char>>);

/// Identifies a conversation session: a chat, optionally narrowed to one user
/// within that chat.
#[derive(Debug, Clone, Hash, Eq, PartialEq)]
pub struct SessionKey {
    pub chat_id: String,
    pub user_id: Option<String>,
}

/// The characters of an optional string.
pub open spec fn opt_view(o: Option<String>) -> Option<Seq<char>> {
    match o {
        Some(s) => Some(s@),
        None => None,
    }
}

impl View for SessionKey {
    type V = SessionKeyView;

    open spec fn view(&self) -> SessionKeyView {
        (self.chat_id@, opt_view(self.user_id))
    }
}

/// The canonical text of a key: `chat:user`, or just the chat id.
pub open spec fn key_text(k: SessionKeyView) -> Seq<char> {
    match k.1 {
        Some(u) => k.0 + seq![':'] + u,
        None => k.0,
    }
}

impl SessionKey {
    /// A key for the given chat and optional user.
    pub fn new(chat_id: &str, user_id: Option<&str>) -> (k: SessionKey)
        ensures
            k@ == (chat_id@, match user_id {
                Some(u) => Some(u@),
                None => None,
            }),
    {
        SessionKey {
            chat_id: owned(chat_id),
            user_id: match user_id {
                Some(u) => Some(owned(u)),
                None => None,
            },
        }
    }

    /// Key for a group-level session (shared across all users in a chat).
    pub fn group(chat_id: &str) -> (k: SessionKey)
        ensures
            k@ == (chat_id@, None::<Seq<char>>),
    {
        SessionKey { chat_id: owned(chat_id), user_id: None }
    }

    /// Key for a private session (user + chat).
    pub fn private(chat_id: &str, user_id: &str) -> (k: SessionKey)
        ensures
            k@ == (chat_id@, Some(user_id@)),
    {
        SessionKey { chat_id: owned(chat_id), user_id: Some(owned(user_id)) }
    }

    /// Canonical string representation (what `Display` writes).
    pub fn to_string_key(&self) -> (s: String)
        ensures
            s@ == key_text(self@),
    {
        let mut s = owned(self.chat_id.as_str());
        match &self.user_id {
            Some(uid) => {
                s.push(':');
                push_str(&mut s, uid.as_str());
            },
            None => {},
        }
        assert(s@ =~= key_text(self@));
        s
    }

    /// Whether two keys name the same session.
    pub fn same(&self, other: &SessionKey) -> (r: bool)
        ensures
            r == (self@ == other@),
    {
        if !str_eq(self.chat_id.as_str(), other.chat_id.as_str()) {
            return false;
        }
        match (&self.user_id, &other.user_id) {
            (Some(a), Some(b)) => str_eq(a.as_str(), b.as_str()),
            (None, None) => true,
            _ => false,
        }
    }

    /// A copy of the key.
    pub fn copy(&self) -> (k: SessionKey)
        ensures
            k == *self,
    {
        SessionKey { chat_id: self.chat_id.clone(), user_id: copy_opt(&self.user_id) }
    }
}

/// A copy of an optional string.
pub fn copy_opt(o: &Option<String>) -> (r: Option<String>)
    ensures
        r == *o,
{
    match o {
        Some(s) => Some(s.clone()),
        None => None,
    }
}

/// The wall clock as whole seconds since the Unix epoch (zero before it).
fn now_unix() -> i64 {
    let secs = match crate::clock::since_unix_epoch(&crate::clock::system_now()) {
        Some(d) => crate::clock::duration_secs(&d),
        None => 0,
    };
    #[verifier::truncate]
    (secs as i64)
}

/// A single message in a conversation session.
#[derive(Debug, Clone)]
pub struct SessionMessage {
    /// Role identifier: "user", "assistant", "bot", "system", etc.
    pub role: String,
    /// Message content (plain text).
    pub content: String,
    /// Unix timestamp (seconds).
    pub timestamp: i64,
    /// Optional reference to the original event message ID.
    pub event_id: Option<String>,
}

impl SessionMessage {
    /// A message with the given role and content, stamped with the given time.
    pub fn at(role: &str, content: &str, timestamp: i64) -> (m: SessionMessage)
        ensures
            m.role@ == role@,
            m.content@ == content@,
            m.timestamp == timestamp,
            m.event_id is None,
    {
        SessionMessage { role: owned(role), content: owned(content), timestamp, event_id: None }
    }

    /// A message with the given role and content, stamped with the current
    /// wall-clock time.
    pub fn new(role: &str, content: &str) -> (m: SessionMessage)
        ensures
            m.role@ == role@,
            m.content@ == content@,
            m.event_id is None,
    {
        SessionMessage::at(role, content, now_unix())
    }

    /// A message in the "user" role.
    pub fn user(content: &str) -> (m: SessionMessage)
        ensures
            m.role@ == "user"@,
            m.content@ == content@,
            m.event_id is None,
    {
        SessionMessage::new("user", content)
    }

    /// A message in the "assistant" role.
    pub fn assistant(content: &str) -> (m: SessionMessage)
        ensures
            m.role@ == "assistant"@,
            m.content@ == content@,
            m.event_id is None,
    {
        SessionMessage::new("assistant", content)
    }

    /// A message in the "system" role.
    pub fn system(content: &str) -> (m: SessionMessage)
        ensures
            m.role@ == "system"@,
            m.content@ == content@,
            m.event_id is None,
    {
        SessionMessage::new("system", content)
    }

    /// The message with a reference to the event message it came from.
    pub fn with_event_id(self, id: &str) -> (m: SessionMessage)
        ensures
            m.role == self.role,
            m.content == self.content,
            m.timestamp == self.timestamp,
            m.event_id matches Some(e) && e@ == id@,
    {
        let mut m = self;
        m.event_id = Some(owned(id));
        m
    }

    /// A copy of the message.
    pub fn copy(&self) -> (m: SessionMessage)
        ensures
            m == *self,
    {
        SessionMessage {
            role: self.role.clone(),
            content: self.content.clone(),
            timestamp: self.timestamp,
            event_id: copy_opt(&self.event_id),
        }
    }
}

/// State of a conversation session.
#[derive(Debug, Clone, Copy, PartialEq, Eq, Structural)]
pub enum SessionState {
    /// Default state: the session is active.
    Active,
    /// Waiting for user input (e.g. mid-wizard flow).
    WaitingForInput,
    /// The session is completed/closed.
    Completed,
}

/// The name of each state.
pub open spec fn state_name(s: SessionState) -> Seq<char> {
    match s {
        SessionState::Active => "active"@,
        SessionState::WaitingForInput => "waiting"@,
        SessionState::Completed => "completed"@,
    }
}

/// The state a name denotes, if any.
pub open spec fn state_named(s: Seq<char>) -> Option<SessionState> {
    if s == "active"@ {
        Some(SessionState::Active)
    } else if s == "waiting"@ {
        Some(SessionState::WaitingForInput)
    } else if s == "completed"@ {
        Some(SessionState::Completed)
    } else {
        None
    }
}

impl SessionState {
    /// The name of the state (what `Display` writes).
    pub fn as_str(&self) -> (s: &'static str)
        ensures
            s@ == state_name(*self),
    {
        match self {
            SessionState::Active => "active",
            SessionState::WaitingForInput => "waiting",
            SessionState::Completed => "completed",
        }
    }

    /// Parses a state name (what `FromStr` does).
    pub fn parse(s: &str) -> (r: Result<SessionState, String>)
        ensures
            match state_named(s@) {
                Some(st) => r == Ok::<SessionState, String>(st),
                None => r matches Err(m) && m@ == "unknown session state: "@ + debug_quoted(s@),
            },
    {
        if str_eq(s, "active") {
            Ok(SessionState::Active)
        } else if str_eq(s, "waiting") {
            Ok(SessionState::WaitingForInput)
        } else if str_eq(s, "completed") {
            Ok(SessionState::Completed)
        } else {
            let mut m = owned("unknown session state: ");
            let q = debug_str(s);
            push_str(&mut m, q.as_str());
            Err(m)
        }
    }
}

/// Every state name parses back to that state.
pub proof fn lemma_state_round_trip(s: SessionState)
    ensures
        state_named(state_name(s)) == Some(s),
{
    reveal_strlit("active");
    reveal_strlit("waiting");
    reveal_strlit("completed");
    assert("waiting"@ != "active"@) by {
        assert("waiting"@[0] != "active"@[0]);
    }
    assert("completed"@ != "active"@) by {
        assert("completed"@[0] != "active"@[0]);
    }
    assert("completed"@ != "waiting"@) by {
        assert("completed"@[0] != "waiting"@[0]);
    }
}

/// Short-lived in-memory session state for multi-step interactions.
pub trait SessionManager {
    /// Append a message to a session, creating the session if needed.
    fn append_message(&mut self, key: &SessionKey, msg: SessionMessage);

    /// Up to `n` most recent messages (most recent last).
    fn get_recent_messages(&self, key: &SessionKey, n: usize) -> Vec<SessionMessage>;

    /// All messages currently held for the session.
    fn get_all_messages(&self, key: &SessionKey) -> Vec<SessionMessage>;

    /// Set the state of a session.
    fn set_state(&mut self, key: &SessionKey, state: SessionState);

    /// The current state of a session.
    fn get_state(&self, key: &SessionKey) -> SessionState;

    /// Forget a session.
    fn clear_session(&mut self, key: &SessionKey);

    /// The number of messages held for a session.
    fn message_count(&self, key: &SessionKey) -> usize;
}

} // verus!
