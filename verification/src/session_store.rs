//! A TTL-based in-memory session manager.
//!
//! Sessions are keyed by [`SessionKey`]. A session idle for the time-to-live
//! is gone: every operation, given the clock time, treats it as absent, and
//! appending drops all such sessions from storage. Each session holds at most
//! `max_messages` entries; the oldest are dropped first.
use std::time::{Duration, Instant};

use vstd::prelude::*;

use crate::clock::{duration_nanos, duration_ns, instant_now, nanos_since};
use crate::session::{SessionKey, SessionKeyView, SessionManager, SessionMessage, SessionState};

verus! {

/// The abstract state of one session.
pub struct SessionView {
    pub messages: Seq<SessionMessage>,
    pub state: SessionState,
    /// When the session last received a message, in clock nanoseconds.
    pub last_active: u128,
}

struct SessionData {
    key: SessionKey,
    messages: Vec<SessionMessage>,
    state: SessionState,
    last_active: u128,
}

impl SessionData {
    spec fn view(self) -> SessionView {
        SessionView { messages: self.messages@, state: self.state, last_active: self.last_active }
    }
}

/// The last `max` elements of `s` (all of `s` when it is shorter).
pub open spec fn keep_last<T>(s: Seq<T>, max: nat) -> Seq<T> {
    if s.len() > max {
        s.subrange(s.len() - max, s.len() as int)
    } else {
        s
    }
}

/// Appending to a session keeps the new message last, after the newest
/// `max - 1` of the earlier ones, and never more than `max` messages.
pub proof fn lemma_append_keeps_latest<T>(s: Seq<T>, m: T, max: nat)
    requires
        max > 0,
    ensures
        keep_last(s.push(m), max) == keep_last(s, (max - 1) as nat).push(m),
        keep_last(s.push(m), max).len() <= max,
        keep_last(s.push(m), max).last() == m,
{
    let t = s.push(m);
    if t.len() > max {
        assert(t.subrange(t.len() - max, t.len() as int) =~= s.subrange(s.len() - (max - 1), s.len() as int).push(m));
    } else {
        assert(keep_last(s, (max - 1) as nat) == s);
    }
}

/// How long a session last active at `last` has been idle at `now`
/// (zero if `last` is later).
pub open spec fn idle(now: u128, last: u128) -> int {
    if now >= last {
        now - last
    } else {
        0
    }
}

/// A session as it stands after eviction at `now`: gone once idle for `ttl`.
pub open spec fn after_eviction(s: Option<SessionView>, now: u128, ttl: u128) -> Option<SessionView> {
    match s {
        Some(v) => if idle(now, v.last_active) < ttl {
            Some(v)
        } else {
            None
        },
        None => None,
    }
}

/// A session reads as it was last left until it has been idle for the
/// time-to-live, and from then on as no session: no messages, `Active`.
pub proof fn lemma_session_expires(v: SessionView, now: u128, ttl: u128)
    ensures
        idle(now, v.last_active) < ttl ==> after_eviction(Some(v), now, ttl) == Some(v),
        idle(now, v.last_active) >= ttl ==> messages_in(after_eviction(Some(v), now, ttl)).len() == 0
            && state_in(after_eviction(Some(v), now, ttl)) == SessionState::Active,
{
}

/// A state set at clock time `now` reads back at that time, whatever the
/// session held before, as long as the time-to-live is not zero (see
/// [`InMemorySessionManager::set_state_at`] and
/// [`InMemorySessionManager::get_state_at`]).
pub proof fn lemma_state_reads_back(before: Option<SessionView>, state: SessionState, now: u128, ttl: u128)
    requires
        ttl > 0,
    ensures
        state_in(
            after_eviction(
                Some(
                    match after_eviction(before, now, ttl) {
                        Some(v) => SessionView { state, ..v },
                        None => SessionView { messages: Seq::empty(), state, last_active: now },
                    },
                ),
                now,
                ttl,
            ),
        ) == state,
{
}

/// A session read less than the time-to-live after its last activity (and
/// not before it) still holds its messages: a read of the `n > 0` most
/// recent ones ends with its newest message.
pub proof fn lemma_recent_read_ends_with_newest(v: SessionView, now: u128, ttl: u128, n: nat)
    requires
        v.messages.len() > 0,
        v.last_active <= now,
        now - v.last_active < ttl,
        n > 0,
    ensures
        keep_last(messages_in(after_eviction(Some(v), now, ttl)), n).len() > 0,
        keep_last(messages_in(after_eviction(Some(v), now, ttl)), n).last() == v.messages.last(),
{
}

/// Right after a message is appended at clock time `stamp` (what
/// [`SessionManager::append_message`] does at the store's clock time), any
/// read of the `n > 0` most recent messages at a time `now` from `stamp` on,
/// less than the time-to-live later, ends with that message, whatever the
/// session held before (as long as a session keeps at least one message).
pub proof fn lemma_appended_message_reads_back(
    before: Option<SessionView>,
    msg: SessionMessage,
    max: nat,
    ttl: u128,
    stamp: u128,
    now: u128,
    n: nat,
)
    requires
        max > 0,
        n > 0,
        stamp <= now,
        now - stamp < ttl,
    ensures
        ({
            let kept = after_eviction(before, stamp, ttl);
            let after = SessionView {
                messages: keep_last(messages_in(kept).push(msg), max),
                state: state_in(kept),
                last_active: stamp,
            };
            keep_last(messages_in(after_eviction(Some(after), now, ttl)), n).last() == msg
        }),
{
    let kept = after_eviction(before, stamp, ttl);
    lemma_append_keeps_latest(messages_in(kept), msg, max);
    let after = SessionView {
        messages: keep_last(messages_in(kept).push(msg), max),
        state: state_in(kept),
        last_active: stamp,
    };
    lemma_recent_read_ends_with_newest(after, now, ttl, n);
}

/// The later of two clock times.
pub open spec fn later(a: u128, b: u128) -> u128 {
    if b > a {
        b
    } else {
        a
    }
}

/// The messages of a session, empty when there is none.
pub open spec fn messages_in(s: Option<SessionView>) -> Seq<SessionMessage> {
    match s {
        Some(v) => v.messages,
        None => Seq::empty(),
    }
}

/// The state of a session, `Active` when there is none.
pub open spec fn state_in(s: Option<SessionView>) -> SessionState {
    match s {
        Some(v) => v.state,
        None => SessionState::Active,
    }
}

spec fn unique_keys(s: Seq<SessionData>) -> bool {
    forall|i: int, j: int| 0 <= i < j < s.len() ==> s[i].key@ != s[j].key@
}

spec fn bounded(s: Seq<SessionData>, max: nat) -> bool {
    forall|i: int| 0 <= i < s.len() ==> (#[trigger] s[i]).messages@.len() <= max
}

spec fn has_key(s: Seq<SessionData>, k: SessionKeyView) -> bool {
    exists|i: int| 0 <= i < s.len() && (#[trigger] s[i]).key@ == k
}

spec fn lookup(s: Seq<SessionData>, k: SessionKeyView) -> Option<SessionView> {
    if has_key(s, k) {
        Some(s[choose|i: int| 0 <= i < s.len() && (#[trigger] s[i]).key@ == k].view())
    } else {
        None
    }
}

proof fn lemma_lookup_at(s: Seq<SessionData>, i: int)
    requires
        unique_keys(s),
        0 <= i < s.len(),
    ensures
        lookup(s, s[i].key@) == Some(s[i].view()),
{
    let k = s[i].key@;
    assert(has_key(s, k));
    let j = choose|j: int| 0 <= j < s.len() && (#[trigger] s[j]).key@ == k;
    if j != i {
        if j < i {
            assert(s[j].key@ != s[i].key@);
        } else {
            assert(s[i].key@ != s[j].key@);
        }
    }
}

proof fn lemma_lookup_none(s: Seq<SessionData>, k: SessionKeyView)
    requires
        forall|i: int| 0 <= i < s.len() ==> (#[trigger] s[i]).key@ != k,
    ensures
        lookup(s, k) is None,
{
}

proof fn lemma_push_new(s: Seq<SessionData>, d: SessionData)
    requires
        unique_keys(s),
        forall|i: int| 0 <= i < s.len() ==> (#[trigger] s[i]).key@ != d.key@,
    ensures
        unique_keys(s.push(d)),
        lookup(s.push(d), d.key@) == Some(d.view()),
        forall|k: SessionKeyView| k != d.key@ ==> lookup(s.push(d), k) == lookup(s, k),
{
    let t = s.push(d);
    assert forall|i: int, j: int| 0 <= i < j < t.len() implies t[i].key@ != t[j].key@ by {
        if j == s.len() {
            assert(s[i].key@ != d.key@);
        } else {
            assert(s[i].key@ != s[j].key@);
        }
    }
    lemma_lookup_at(t, s.len() as int);
    assert forall|k: SessionKeyView| k != d.key@ implies lookup(t, k) == lookup(s, k) by {
        if has_key(s, k) {
            let j = choose|j: int| 0 <= j < s.len() && (#[trigger] s[j]).key@ == k;
            lemma_lookup_at(s, j);
            assert(t[j] == s[j]);
            lemma_lookup_at(t, j);
        } else {
            assert forall|i: int| 0 <= i < t.len() implies (#[trigger] t[i]).key@ != k by {
                if i < s.len() {
                    assert(t[i] == s[i]);
                }
            }
            lemma_lookup_none(t, k);
        }
    }
}

proof fn lemma_remove(s: Seq<SessionData>, i: int)
    requires
        unique_keys(s),
        0 <= i < s.len(),
    ensures
        unique_keys(s.remove(i)),
        forall|j: int| 0 <= j < s.remove(i).len() ==> (#[trigger] s.remove(i)[j]).key@ != s[i].key@,
        lookup(s.remove(i), s[i].key@) is None,
        forall|k: SessionKeyView| k != s[i].key@ ==> lookup(s.remove(i), k) == lookup(s, k),
{
    let t = s.remove(i);
    assert forall|a: int, b: int| 0 <= a < b < t.len() implies t[a].key@ != t[b].key@ by {
        let a2 = if a < i { a } else { a + 1 };
        let b2 = if b < i { b } else { b + 1 };
        assert(t[a] == s[a2]);
        assert(t[b] == s[b2]);
    }
    assert forall|j: int| 0 <= j < t.len() implies (#[trigger] t[j]).key@ != s[i].key@ by {
        let j2 = if j < i { j } else { j + 1 };
        assert(t[j] == s[j2]);
        if j2 < i {
            assert(s[j2].key@ != s[i].key@);
        } else {
            assert(s[i].key@ != s[j2].key@);
        }
    }
    lemma_lookup_none(t, s[i].key@);
    assert forall|k: SessionKeyView| k != s[i].key@ implies lookup(t, k) == lookup(s, k) by {
        if has_key(s, k) {
            let j = choose|j: int| 0 <= j < s.len() && (#[trigger] s[j]).key@ == k;
            lemma_lookup_at(s, j);
            let j2 = if j < i { j } else { j - 1 };
            assert(t[j2] == s[j]);
            lemma_lookup_at(t, j2);
        } else {
            assert forall|a: int| 0 <= a < t.len() implies (#[trigger] t[a]).key@ != k by {
                let a2 = if a < i { a } else { a + 1 };
                assert(t[a] == s[a2]);
            }
            lemma_lookup_none(t, k);
        }
    }
}

/// The last `max` elements of `v`.
fn truncate_front(v: Vec<SessionMessage>, max: usize) -> (r: Vec<SessionMessage>)
    ensures
        r@ == keep_last(v@, max as nat),
{
    let mut v = v;
    if v.len() > max {
        let at = v.len() - max;
        let tail = v.split_off(at);
        tail
    } else {
        v
    }
}

/// Copies of the elements of `v` from position `from` on.
fn copy_from(v: &Vec<SessionMessage>, from: usize) -> (r: Vec<SessionMessage>)
    requires
        from <= v@.len(),
    ensures
        r@ == v@.subrange(from as int, v@.len() as int),
{
    let mut r: Vec<SessionMessage> = Vec::new();
    let mut i = from;
    while i < v.len()
        invariant
            from <= i <= v@.len(),
            r@ == v@.subrange(from as int, i as int),
        decreases v.len() - i,
    {
        r.push(v[i].copy());
        assert(v@.subrange(from as int, i as int + 1) == v@.subrange(from as int, i as int).push(v@[i as int]));
        i = i + 1;
    }
    r
}

/// A thread-unaware, TTL-based in-memory session manager.
pub struct InMemorySessionManager {
    sessions: Vec<SessionData>,
    max_messages: usize,
    ttl_ns: u128,
    clock: Instant,
    /// The latest clock time an update used.
    seen: u128,
}

impl InMemorySessionManager {
    #[verifier::type_invariant]
    spec fn inv(self) -> bool {
        &&& unique_keys(self.sessions@)
        &&& bounded(self.sessions@, self.max_messages as nat)
    }

    /// The session stored under `k`, if any.
    pub closed spec fn session(&self, k: SessionKeyView) -> Option<SessionView> {
        lookup(self.sessions@, k)
    }

    /// The most messages a session keeps.
    pub closed spec fn max_messages(&self) -> nat {
        self.max_messages as nat
    }

    /// The idle time after which a session is evicted, in nanoseconds.
    pub closed spec fn ttl_nanos(&self) -> u128 {
        self.ttl_ns
    }

    /// The latest clock time at which the store was updated; the store's
    /// clock never reads earlier than this.
    pub closed spec fn clock_seen(&self) -> u128 {
        self.seen
    }

    /// An empty manager keeping at most `max_messages` per session and
    /// evicting sessions idle for `ttl_ns` nanoseconds.
    pub fn with_ttl_nanos(max_messages: usize, ttl_ns: u128) -> (m: InMemorySessionManager)
        ensures
            forall|k: SessionKeyView| m.session(k) is None,
            m.max_messages() == max_messages,
            m.ttl_nanos() == ttl_ns,
            m.clock_seen() == 0,
    {
        InMemorySessionManager { sessions: Vec::new(), max_messages, ttl_ns, clock: instant_now(), seen: 0 }
    }

    /// An empty manager keeping at most `max_messages` per session and
    /// evicting sessions idle for `ttl` (to the nanosecond).
    pub fn new(max_messages: usize, ttl: Duration) -> (m: InMemorySessionManager)
        ensures
            forall|k: SessionKeyView| m.session(k) is None,
            m.max_messages() == max_messages,
            m.ttl_nanos() == duration_ns(ttl),
            m.clock_seen() == 0,
    {
        InMemorySessionManager::with_ttl_nanos(max_messages, duration_nanos(&ttl))
    }

    /// The position of the session stored under `key`.
    fn find(&self, key: &SessionKey) -> (r: Option<usize>)
        ensures
            match r {
                Some(i) => i < self.sessions@.len() && self.sessions@[i as int].key@ == key@,
                None => forall|i: int| 0 <= i < self.sessions@.len() ==> (#[trigger] self.sessions@[i]).key@ != key@,
            },
    {
        let mut i: usize = 0;
        while i < self.sessions.len()
            invariant
                i <= self.sessions@.len(),
                forall|j: int| 0 <= j < i ==> (#[trigger] self.sessions@[j]).key@ != key@,
            decreases self.sessions.len() - i,
        {
            if self.sessions[i].key.same(key) {
                return Some(i);
            }
            i = i + 1;
        }
        None
    }

    /// Appends `msg` to the session under `key` at clock time `now`: first every
    /// session idle for the time-to-live is evicted, then the message is
    /// appended (creating an `Active` session if needed), the oldest messages
    /// beyond `max_messages` are dropped, and the session is marked active at `now`.
    pub fn append_message_at(&mut self, key: &SessionKey, msg: SessionMessage, now: u128)
        ensures
            final(self).max_messages() == old(self).max_messages(),
            final(self).ttl_nanos() == old(self).ttl_nanos(),
            final(self).clock_seen() == later(old(self).clock_seen(), now),
            forall|k: SessionKeyView| k != key@ ==> final(self).session(k) == after_eviction(
                old(self).session(k),
                now,
                old(self).ttl_nanos(),
            ),
            final(self).session(key@) == Some(SessionView {
                messages: keep_last(
                    messages_in(after_eviction(old(self).session(key@), now, old(self).ttl_nanos())).push(msg),
                    old(self).max_messages(),
                ),
                state: state_in(after_eviction(old(self).session(key@), now, old(self).ttl_nanos())),
                last_active: now,
            }),
    {
        proof {
            use_type_invariant(&*self);
        }
        let max = self.max_messages;
        let ttl = self.ttl_ns;
        let mut taken: Vec<SessionData> = Vec::new();
        std::mem::swap(&mut taken, &mut self.sessions);
        let ghost taken0 = taken@;
        let mut kept = Self::evicted(taken, now, ttl, max);
        let ghost kept0 = kept@;
        let found = self.find_in(&kept, key);
        let d = match found {
            Some(i) => {
                proof {
                    lemma_lookup_at(kept0, i as int);
                    lemma_remove(kept0, i as int);
                }
                let mut d = kept.remove(i);
                let mut msgs = Vec::new();
                std::mem::swap(&mut msgs, &mut d.messages);
                msgs.push(msg);
                SessionData { key: d.key, messages: truncate_front(msgs, max), state: d.state, last_active: now }
            },
            None => {
                proof {
                    lemma_lookup_none(kept0, key@);
                }
                let mut msgs = Vec::new();
                msgs.push(msg);
                SessionData { key: key.copy(), messages: truncate_front(msgs, max), state: SessionState::Active, last_active: now }
            },
        };
        let ghost mid = kept@;
        proof {
            lemma_push_new(kept@, d);
            assert(d.key@ == key@);
        }
        kept.push(d);
        proof {
            assert forall|k: SessionKeyView| k != key@ implies lookup(kept@, k) == lookup(kept0, k) by {
                match found {
                    Some(i) => {
                        assert(lookup(mid, k) == lookup(kept0, k));
                    },
                    None => {
                        assert(mid == kept0);
                    },
                }
            }
            assert(taken0 == old(self).sessions@);
            assert forall|k: SessionKeyView| k != key@ implies lookup(kept@, k) == after_eviction(lookup(taken0, k), now, ttl) by {
                assert(lookup(kept0, k) == after_eviction(lookup(taken0, k), now, ttl));
            }
        }
        self.sessions = kept;
        if now > self.seen {
            self.seen = now;
        }
    }

    /// Sets the state of the session under `key` at clock time `now`. A session
    /// idle for the time-to-live counts as gone: in its place, as when there is
    /// none, an empty session marked active at `now` is created.
    pub fn set_state_at(&mut self, key: &SessionKey, state: SessionState, now: u128)
        ensures
            final(self).max_messages() == old(self).max_messages(),
            final(self).ttl_nanos() == old(self).ttl_nanos(),
            final(self).clock_seen() == later(old(self).clock_seen(), now),
            forall|k: SessionKeyView| k != key@ ==> final(self).session(k) == old(self).session(k),
            final(self).session(key@) == Some(
                match after_eviction(old(self).session(key@), now, old(self).ttl_nanos()) {
                    Some(v) => SessionView { state, ..v },
                    None => SessionView { messages: Seq::empty(), state, last_active: now },
                },
            ),
    {
        proof {
            use_type_invariant(&*self);
        }
        let ttl = self.ttl_ns;
        let mut kept: Vec<SessionData> = Vec::new();
        std::mem::swap(&mut kept, &mut self.sessions);
        let ghost kept0 = kept@;
        let d = match self.find_in(&kept, key) {
            Some(i) => {
                proof {
                    lemma_lookup_at(kept0, i as int);
                    lemma_remove(kept0, i as int);
                }
                let d = kept.remove(i);
                let last = d.last_active;
                let id = if now >= last { now - last } else { 0 };
                if id < ttl {
                    SessionData { key: d.key, messages: d.messages, state, last_active: d.last_active }
                } else {
                    SessionData { key: d.key, messages: Vec::new(), state, last_active: now }
                }
            },
            None => {
                proof {
                    lemma_lookup_none(kept0, key@);
                }
                SessionData { key: key.copy(), messages: Vec::new(), state, last_active: now }
            },
        };
        proof {
            lemma_push_new(kept@, d);
        }
        kept.push(d);
        self.sessions = kept;
        if now > self.seen {
            self.seen = now;
        }
    }

    /// Reads the session store's clock, in nanoseconds since it was made. The
    /// clock is monotonic, so it never reads earlier than a time the store
    /// was already updated at.
    pub fn clock_nanos(&self) -> (r: u128)
        ensures
            r >= self.clock_seen(),
    {
        let r = nanos_since(&self.clock);
        if r < self.seen {
            self.seen
        } else {
            r
        }
    }

    /// The position of the session under `key`, if it is still live at `now`.
    fn live(&self, key: &SessionKey, now: u128) -> (r: Option<usize>)
        ensures
            match r {
                Some(i) => i < self.sessions@.len() && after_eviction(self.session(key@), now, self.ttl_nanos())
                    == Some(self.sessions@[i as int].view()),
                None => after_eviction(self.session(key@), now, self.ttl_nanos()) is None,
            },
    {
        proof {
            use_type_invariant(self);
        }
        match self.find(key) {
            Some(i) => {
                proof {
                    lemma_lookup_at(self.sessions@, i as int);
                }
                let last = self.sessions[i].last_active;
                let id = if now >= last { now - last } else { 0 };
                if id < self.ttl_ns {
                    Some(i)
                } else {
                    None
                }
            },
            None => {
                proof {
                    lemma_lookup_none(self.sessions@, key@);
                }
                None
            },
        }
    }

    /// Up to `n` most recent messages (most recent last) of the session under
    /// `key` as it stands at clock time `now`; none once it has been idle for
    /// the time-to-live.
    pub fn get_recent_messages_at(&self, key: &SessionKey, n: usize, now: u128) -> (r: Vec<SessionMessage>)
        ensures
            r@ == keep_last(messages_in(after_eviction(self.session(key@), now, self.ttl_nanos())), n as nat),
    {
        match self.live(key, now) {
            Some(i) => {
                let msgs = &self.sessions[i].messages;
                let skip = if msgs.len() > n { msgs.len() - n } else { 0 };
                copy_from(msgs, skip)
            },
            None => Vec::new(),
        }
    }

    /// All messages, oldest first, of the session under `key` as it stands at
    /// clock time `now`; none once it has been idle for the time-to-live.
    pub fn get_all_messages_at(&self, key: &SessionKey, now: u128) -> (r: Vec<SessionMessage>)
        ensures
            r@ == messages_in(after_eviction(self.session(key@), now, self.ttl_nanos())),
            r@.len() <= self.max_messages(),
    {
        proof {
            use_type_invariant(self);
        }
        match self.live(key, now) {
            Some(i) => {
                proof {
                    assert(self.sessions@[i as int].messages@.len() <= self.max_messages);
                }
                copy_from(&self.sessions[i].messages, 0)
            },
            None => Vec::new(),
        }
    }

    /// The state of the session under `key` at clock time `now`; `Active`
    /// when there is none or it has been idle for the time-to-live.
    pub fn get_state_at(&self, key: &SessionKey, now: u128) -> (r: SessionState)
        ensures
            r == state_in(after_eviction(self.session(key@), now, self.ttl_nanos())),
    {
        match self.live(key, now) {
            Some(i) => self.sessions[i].state,
            None => SessionState::Active,
        }
    }

    /// The number of messages of the session under `key` at clock time `now`;
    /// zero once it has been idle for the time-to-live.
    pub fn message_count_at(&self, key: &SessionKey, now: u128) -> (r: usize)
        ensures
            r == messages_in(after_eviction(self.session(key@), now, self.ttl_nanos())).len(),
    {
        match self.live(key, now) {
            Some(i) => self.sessions[i].messages.len(),
            None => 0,
        }
    }

    /// The position of the session stored under `key` in `sessions`.
    fn find_in(&self, sessions: &Vec<SessionData>, key: &SessionKey) -> (r: Option<usize>)
        ensures
            match r {
                Some(i) => i < sessions@.len() && sessions@[i as int].key@ == key@,
                None => forall|i: int| 0 <= i < sessions@.len() ==> (#[trigger] sessions@[i]).key@ != key@,
            },
    {
        let mut i: usize = 0;
        while i < sessions.len()
            invariant
                i <= sessions@.len(),
                forall|j: int| 0 <= j < i ==> (#[trigger] sessions@[j]).key@ != key@,
            decreases sessions.len() - i,
        {
            if sessions[i].key.same(key) {
                return Some(i);
            }
            i = i + 1;
        }
        None
    }

    /// Drops every session idle for at least the time-to-live at `now`.
    fn evicted(sessions: Vec<SessionData>, now: u128, ttl: u128, max: usize) -> (r: Vec<SessionData>)
        requires
            unique_keys(sessions@),
            bounded(sessions@, max as nat),
        ensures
            unique_keys(r@),
            bounded(r@, max as nat),
            forall|k: SessionKeyView| lookup(r@, k) == after_eviction(lookup(sessions@, k), now, ttl),
    {
        let ghost old_s = sessions@;
        let n = sessions.len();
        let mut out: Vec<SessionData> = Vec::new();
        let ghost mut src: Seq<int> = Seq::empty();
        let mut rest = sessions;
        let mut i: usize = 0;
        // Consume from the front by reversing once.
        let mut rev: Vec<SessionData> = Vec::new();
        while rest.len() > 0
            invariant
                rev@.len() + rest@.len() == old_s.len(),
                forall|j: int| 0 <= j < rest@.len() ==> rest@[j] == old_s[j],
                forall|j: int| 0 <= j < rev@.len() ==> rev@[j] == old_s[old_s.len() - 1 - j],
            decreases rest.len(),
        {
            let d = rest.pop().unwrap();
            rev.push(d);
        }
        while rev.len() > 0
            invariant
                i + rev@.len() == old_s.len(),
                old_s.len() == n,
                forall|j: int| 0 <= j < rev@.len() ==> rev@[j] == old_s[old_s.len() - 1 - j],
                unique_keys(old_s),
                bounded(old_s, max as nat),
                src.len() == out@.len(),
                forall|j: int| 0 <= j < out@.len() ==> 0 <= #[trigger] src[j] < i && out@[j] == old_s[src[j]],
                forall|a: int, b: int| 0 <= a < b < src.len() ==> src[a] < src[b],
                forall|j: int| 0 <= j < i && idle(now, old_s[j].last_active) < ttl ==> exists|o: int| 0 <= o < out@.len() && src[o] == j,
                forall|j: int| 0 <= j < out@.len() ==> idle(now, (#[trigger] out@[j]).last_active) < ttl,
            decreases rev.len(),
        {
            let d = rev.pop().unwrap();
            assert(d == old_s[i as int]);
            let ghost src0 = src;
            let ghost out0 = out@;
            let last = d.last_active;
            let id = if now >= last { now - last } else { 0 };
            if id < ttl {
                out.push(d);
                proof {
                    src = src.push(i as int);
                }
            }
            proof {
                assert forall|j: int| 0 <= j < i + 1 && idle(now, old_s[j].last_active) < ttl
                    implies exists|o: int| 0 <= o < out@.len() && src[o] == j by {
                    if j == i {
                        assert(src[out@.len() - 1] == j);
                    } else {
                        let o = choose|o: int| 0 <= o < out0.len() && src0[o] == j;
                        assert(src[o] == j);
                    }
                }
            }
            i = i + 1;
        }
        proof {
            assert forall|a: int, b: int| 0 <= a < b < out@.len() implies out@[a].key@ != out@[b].key@ by {
                assert(src[a] < src[b]);
            }
            assert forall|j: int| 0 <= j < out@.len() implies (#[trigger] out@[j]).messages@.len() <= max by {
                assert(out@[j] == old_s[src[j]]);
            }
            assert forall|k: SessionKeyView| lookup(out@, k) == after_eviction(lookup(old_s, k), now, ttl) by {
                if has_key(old_s, k) {
                    let j = choose|j: int| 0 <= j < old_s.len() && (#[trigger] old_s[j]).key@ == k;
                    lemma_lookup_at(old_s, j);
                    if idle(now, old_s[j].last_active) < ttl {
                        let o = choose|o: int| 0 <= o < out@.len() && src[o] == j;
                        lemma_lookup_at(out@, o);
                    } else {
                        assert forall|o: int| 0 <= o < out@.len() implies (#[trigger] out@[o]).key@ != k by {
                            if out@[o].key@ == k {
                                assert(out@[o] == old_s[src[o]]);
                                if src[o] != j {
                                    if src[o] < j {
                                        assert(old_s[src[o]].key@ != old_s[j].key@);
                                    } else {
                                        assert(old_s[j].key@ != old_s[src[o]].key@);
                                    }
                                }
                            }
                        }
                        lemma_lookup_none(out@, k);
                    }
                } else {
                    assert forall|o: int| 0 <= o < out@.len() implies (#[trigger] out@[o]).key@ != k by {
                        assert(out@[o] == old_s[src[o]]);
                    }
                    lemma_lookup_none(out@, k);
                }
            }
        }
        out
    }
}

} // verus!

verus! {

impl SessionManager for InMemorySessionManager {
    /// Evicts idle sessions and appends `msg` (see
    /// [`InMemorySessionManager::append_message_at`]) at the current clock
    /// time, which becomes the store's [`clock_seen`](InMemorySessionManager::clock_seen).
    fn append_message(&mut self, key: &SessionKey, msg: SessionMessage)
        ensures
            final(self).clock_seen() >= old(self).clock_seen(),
            final(self).max_messages() == old(self).max_messages(),
            final(self).ttl_nanos() == old(self).ttl_nanos(),
            forall|k: SessionKeyView| k != key@ ==> final(self).session(k) == after_eviction(
                old(self).session(k),
                final(self).clock_seen(),
                old(self).ttl_nanos(),
            ),
            final(self).session(key@) == Some(SessionView {
                messages: keep_last(
                    messages_in(
                        after_eviction(old(self).session(key@), final(self).clock_seen(), old(self).ttl_nanos()),
                    ).push(msg),
                    old(self).max_messages(),
                ),
                state: state_in(after_eviction(old(self).session(key@), final(self).clock_seen(), old(self).ttl_nanos())),
                last_active: final(self).clock_seen(),
            }),
    {
        let now = self.clock_nanos();
        self.append_message_at(key, msg, now);
    }

    /// Up to `n` most recent messages of the session (most recent last), as it
    /// stands at the current clock time.
    fn get_recent_messages(&self, key: &SessionKey, n: usize) -> (r: Vec<SessionMessage>)
        ensures
            exists|now: u128| now >= self.clock_seen() &&
                r@ == keep_last(#[trigger] messages_in(after_eviction(self.session(key@), now, self.ttl_nanos())), n as nat),
    {
        let now = self.clock_nanos();
        self.get_recent_messages_at(key, n, now)
    }

    /// All messages of the session, oldest first, as it stands at the current
    /// clock time.
    fn get_all_messages(&self, key: &SessionKey) -> (r: Vec<SessionMessage>)
        ensures
            exists|now: u128| now >= self.clock_seen() && r@ == #[trigger] messages_in(after_eviction(self.session(key@), now, self.ttl_nanos())),
            r@.len() <= self.max_messages(),
    {
        let now = self.clock_nanos();
        self.get_all_messages_at(key, now)
    }

    /// Sets the session's state (see [`InMemorySessionManager::set_state_at`])
    /// at the current clock time, which becomes the store's
    /// [`clock_seen`](InMemorySessionManager::clock_seen).
    fn set_state(&mut self, key: &SessionKey, state: SessionState)
        ensures
            final(self).clock_seen() >= old(self).clock_seen(),
            final(self).max_messages() == old(self).max_messages(),
            final(self).ttl_nanos() == old(self).ttl_nanos(),
            forall|k: SessionKeyView| k != key@ ==> final(self).session(k) == old(self).session(k),
            final(self).session(key@) == Some(
                match after_eviction(old(self).session(key@), final(self).clock_seen(), old(self).ttl_nanos()) {
                    Some(v) => SessionView { state, ..v },
                    None => SessionView { messages: Seq::empty(), state, last_active: final(self).clock_seen() },
                },
            ),
    {
        let now = self.clock_nanos();
        self.set_state_at(key, state, now);
    }

    /// The session's state at the current clock time; `Active` when there is
    /// none or it has been idle for the time-to-live.
    fn get_state(&self, key: &SessionKey) -> (r: SessionState)
        ensures
            exists|now: u128| now >= self.clock_seen() && r == state_in(#[trigger] after_eviction(self.session(key@), now, self.ttl_nanos())),
    {
        let now = self.clock_nanos();
        self.get_state_at(key, now)
    }

    /// Forgets the session under `key`; every other session is untouched.
    fn clear_session(&mut self, key: &SessionKey)
        ensures
            final(self).max_messages() == old(self).max_messages(),
            final(self).ttl_nanos() == old(self).ttl_nanos(),
            final(self).clock_seen() == old(self).clock_seen(),
            final(self).session(key@) is None,
            forall|k: SessionKeyView| k != key@ ==> final(self).session(k) == old(self).session(k),
    {
        proof {
            use_type_invariant(&*self);
        }
        let mut kept: Vec<SessionData> = Vec::new();
        std::mem::swap(&mut kept, &mut self.sessions);
        let ghost kept0 = kept@;
        let pos = self.find_in(&kept, key);
        match pos {
            Some(i) => {
                proof {
                    lemma_lookup_at(kept0, i as int);
                    lemma_remove(kept0, i as int);
                }
                let _ = kept.remove(i);
            },
            None => {
                proof {
                    lemma_lookup_none(kept0, key@);
                }
            },
        }
        proof {
            assert forall|j: int| 0 <= j < kept@.len() implies (#[trigger] kept@[j]).messages@.len() <= self.max_messages by {
                match pos {
                    Some(i) => {
                        let j2 = if j < i { j } else { j + 1 };
                        assert(kept@[j] == kept0[j2]);
                    },
                    None => {
                        assert(kept@[j] == kept0[j]);
                    },
                }
            }
        }
        self.sessions = kept;
    }

    /// The number of messages of the session at the current clock time.
    fn message_count(&self, key: &SessionKey) -> (r: usize)
        ensures
            exists|now: u128| now >= self.clock_seen() && r == (#[trigger] messages_in(after_eviction(self.session(key@), now, self.ttl_nanos()))).len(),
    {
        let now = self.clock_nanos();
        self.message_count_at(key, now)
    }
}

} // verus!
