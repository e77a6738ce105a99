//! The example plugin's behaviour: `/ping` answers `pong!`; `/echo text`
//! echoes the text, while a bare `/echo` opens an echo session so that the
//! user's next message in that chat is echoed back; a hook rewrites a
//! message reading `hook`, another rewrites the arguments of `/echo rewrite`.
use vstd::prelude::*;

use crate::event::{ContentItem, Event, is_text_item, texts};
use crate::session::{SessionKey, SessionKeyView, SessionManager, SessionMessage, SessionState, copy_opt, opt_view};
use crate::session_store::{InMemorySessionManager, after_eviction, messages_in, state_in};
use crate::text::{owned, str_eq};

verus! {

/// The name the example plugin's replies carry as their source.
pub open spec fn plugin_source() -> Seq<char> {
    "MyPlugin"@
}

/// `resp` answers `req` with `text`: a plain text message from the example
/// plugin sent to the request's chat, replying to the request's message and
/// directed back to the plugin that asked, if any.
pub open spec fn is_reply(resp: Event, req: Event, text: Seq<char>) -> bool {
    &&& resp.event_type == crate::event::EventType::Message
    &&& resp.source@ == plugin_source()
    &&& resp.data@.len() == 0
    &&& resp.command is None
    &&& resp.reply_plugin is None
    &&& opt_view(resp.target_plugin) == opt_view(req.reply_plugin)
    &&& match resp.message {
        Some(m) => {
            &&& m.content@.len() == 1
            &&& is_text_item(m.content@[0], text, None)
            &&& m.id is None
            &&& m.sender is None
            &&& m.chat.has_default_metadata()
            &&& m.at@.len() == 0
            &&& !m.is_admin
            &&& m.delete_after is None
            &&& match req.message {
                Some(q) => m.chat.id@ == q.chat.id@ && opt_view(m.reply_to) == opt_view(q.id),
                None => m.chat.id@.len() == 0 && m.reply_to is None,
            }
        },
        None => false,
    }
}

/// A reply to `req` holding `text` (see [`is_reply`]).
pub fn reply_to(req: &Event, text: &str) -> (resp: Event)
    ensures
        is_reply(resp, *req, text@),
{
    proof {
        reveal_strlit("MyPlugin");
    }
    let mut resp = Event::message("MyPlugin", text);
    match (&req.message, resp.message) {
        (Some(q), Some(m)) => {
            let mut m = m;
            m.chat.id = q.chat.id.clone();
            m.reply_to = copy_opt(&q.id);
            resp.message = Some(m);
        },
        (None, m) => {
            resp.message = m;
        },
        (Some(_), None) => {
            resp.message = None;
        },
    }
    resp.target_plugin = copy_opt(&req.reply_plugin);
    resp
}

/// The session of the chat and user a message comes from, when both are
/// known: the chat id is not empty and there is a sender.
pub open spec fn echo_session(e: Event) -> Option<SessionKeyView> {
    match e.message {
        Some(m) => match m.sender {
            Some(s) => if m.chat.id@.len() > 0 {
                Some((m.chat.id@, Some(s.id@)))
            } else {
                None
            },
            None => None,
        },
        None => None,
    }
}

/// The session key of the chat and user an event's message comes from (see
/// [`echo_session`]).
pub fn echo_session_key(e: &Event) -> (k: Option<SessionKey>)
    ensures
        match echo_session(*e) {
            Some(v) => k matches Some(key) && key@ == v,
            None => k is None,
        },
{
    match &e.message {
        Some(m) => match &m.sender {
            Some(s) => {
                if m.chat.id.as_str().is_empty() {
                    None
                } else {
                    Some(SessionKey::private(m.chat.id.as_str(), s.id.as_str()))
                }
            },
            None => None,
        },
        None => None,
    }
}

/// The message that marks an open echo session.
pub open spec fn is_echo_marker(m: SessionMessage) -> bool {
    m.role@ == "system"@ && m.content@ == "echo"@
}

/// Whether a session waits for the message to echo: it is waiting for input
/// and its last message is the echo marker.
pub open spec fn echo_pending(s: Option<crate::session_store::SessionView>) -> bool {
    &&& state_in(s) == SessionState::WaitingForInput
    &&& messages_in(s).len() > 0
    &&& is_echo_marker(messages_in(s).last())
}

/// An echo session that `/echo` left pending at clock time `stamp` is still
/// pending when the next message comes at a time `now` from `stamp` on, less
/// than the time-to-live later: the echo handler then answers it (see
/// [`echo_handled`]).
pub proof fn lemma_open_echo_session_is_answered(v: crate::session_store::SessionView, now: u128, ttl: u128)
    requires
        echo_pending(Some(v)),
        v.last_active <= now,
        now - v.last_active < ttl,
    ensures
        echo_pending(after_eviction(Some(v), now, ttl)),
{
}

/// The `/ping` command: answers `pong!`.
pub fn ping(req: &Event) -> (resp: Event)
    ensures
        is_reply(resp, *req, "pong!"@),
{
    reply_to(req, "pong!")
}

/// The `/echo` command. With arguments, answers with them and leaves the
/// sessions alone. Without, opens an echo session for the chat and user the
/// request comes from (when both are known) and asks for the message to echo.
pub fn echo(sessions: &mut InMemorySessionManager, req: &Event, args: &str) -> (resp: Event)
    ensures
        args@.len() > 0 ==> is_reply(resp, *req, args@) && *final(sessions) == *old(sessions),
        args@.len() == 0 ==> is_reply(resp, *req, "Send me a message to echo."@),
        args@.len() == 0 && echo_session(*req) is None ==> *final(sessions) == *old(sessions),
        args@.len() == 0 && echo_session(*req) is Some && old(sessions).max_messages() > 0
            && old(sessions).ttl_nanos() > 0 ==> echo_pending(final(sessions).session(echo_session(*req)->0))
            && final(sessions).session(echo_session(*req)->0)->0.last_active == final(sessions).clock_seen(),
        final(sessions).clock_seen() >= old(sessions).clock_seen(),
        final(sessions).max_messages() == old(sessions).max_messages(),
        final(sessions).ttl_nanos() == old(sessions).ttl_nanos(),
{
    if args.is_empty() {
        match echo_session_key(req) {
            Some(key) => {
                proof {
                    reveal_strlit("system");
                    reveal_strlit("echo");
                }
                let marker = SessionMessage::system("echo");
                let now = sessions.clock_nanos();
                sessions.append_message_at(&key, marker, now);
                sessions.set_state_at(&key, SessionState::WaitingForInput, now);
            },
            None => {},
        }
        reply_to(req, "Send me a message to echo.")
    } else {
        reply_to(req, args)
    }
}

/// What the echo message handler does at clock time `now`: when the
/// message's chat and user have an echo session that is pending at `now`
/// (see [`echo_pending`]), it answers with the message's text and closes the
/// session; otherwise it answers nothing and changes nothing.
pub open spec fn echo_handled(
    before: InMemorySessionManager,
    after: InMemorySessionManager,
    event: Event,
    resp: Option<Event>,
    now: u128,
) -> bool {
    match echo_session(event) {
        Some(k) => if echo_pending(after_eviction(before.session(k), now, before.ttl_nanos())) {
            &&& resp matches Some(r) && is_reply(r, event, texts(event.message->0.content@))
            &&& after.session(k) is None
            &&& forall|o: SessionKeyView| o != k ==> after.session(o) == before.session(o)
            &&& after.max_messages() == before.max_messages()
            &&& after.ttl_nanos() == before.ttl_nanos()
            &&& after.clock_seen() == before.clock_seen()
        } else {
            resp is None && after == before
        },
        None => resp is None && after == before,
    }
}

/// The echo message handler (see [`echo_handled`]), at the store's clock
/// time, which is never earlier than the last time the store was updated.
pub fn echo_handler(sessions: &mut InMemorySessionManager, event: &Event) -> (resp: Option<Event>)
    ensures
        exists|now: u128| now >= old(sessions).clock_seen() && #[trigger] echo_handled(*old(sessions), *final(sessions), *event, resp, now),
{
    let key = match echo_session_key(event) {
        Some(k) => k,
        None => {
            assert(echo_handled(*old(sessions), *sessions, *event, None, sessions.clock_seen()));
            return None;
        },
    };
    let now = sessions.clock_nanos();
    let state = sessions.get_state_at(&key, now);
    if state != SessionState::WaitingForInput {
        assert(echo_handled(*old(sessions), *sessions, *event, None, now));
        return None;
    }
    let recent = sessions.get_all_messages_at(&key, now);
    if recent.len() == 0 {
        assert(echo_handled(*old(sessions), *sessions, *event, None, now));
        return None;
    }
    let last = &recent[recent.len() - 1];
    if !(str_eq(last.role.as_str(), "system") && str_eq(last.content.as_str(), "echo")) {
        assert(echo_handled(*old(sessions), *sessions, *event, None, now));
        return None;
    }
    let text = match &event.message {
        Some(m) => m.text(),
        None => String::new(),
    };
    let r = reply_to(event, text.as_str());
    sessions.clear_session(&key);
    assert(echo_handled(*old(sessions), *sessions, *event, Some(r), now));
    Some(r)
}

/// The logging hook's rewrite: a message whose text is exactly `hook` gets
/// its content replaced by the single text item `hooked`.
pub fn log_hook(event: &mut Event)
    ensures
        final(event).event_type == old(event).event_type,
        final(event).source == old(event).source,
        final(event).command == old(event).command,
        final(event).reply_plugin == old(event).reply_plugin,
        final(event).target_plugin == old(event).target_plugin,
        match old(event).message {
            Some(m) => final(event).message matches Some(n) && if texts(m.content@) == "hook"@ {
                n.content@.len() == 1 && is_text_item(n.content@[0], "hooked"@, None) && n == (
                crate::event::Message { content: n.content, ..m })
            } else {
                n == m
            },
            None => final(event).message is None,
        },
{
    let mut msg = event.message.take();
    match msg {
        Some(ref mut m) => {
            let t = m.text();
            if str_eq(t.as_str(), "hook") {
                let mut content = Vec::new();
                content.push(ContentItem::text("hooked"));
                m.content = content;
            }
        },
        None => {},
    }
    event.message = msg;
}

/// The `/echo` argument rewrite hook: arguments reading exactly `rewrite`
/// become `rewritten by hook`.
pub fn echo_arg_rewrite(event: &mut Event)
    ensures
        final(event).event_type == old(event).event_type,
        final(event).source == old(event).source,
        final(event).message == old(event).message,
        final(event).reply_plugin == old(event).reply_plugin,
        final(event).target_plugin == old(event).target_plugin,
        match old(event).command {
            Some(c) => final(event).command matches Some(d) && d.cmd == c.cmd && if c.args@ == "rewrite"@ {
                d.args@ == "rewritten by hook"@
            } else {
                d.args == c.args
            },
            None => final(event).command is None,
        },
{
    let mut cmd = event.command.take();
    match cmd {
        Some(ref mut c) => {
            if str_eq(c.args.as_str(), "rewrite") {
                c.args = owned("rewritten by hook");
            }
        },
        None => {},
    }
    event.command = cmd;
}

} // verus!
