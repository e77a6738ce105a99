//! Runtime status snapshots: uptime, platform, process memory and plugin count.
use std::time::{Duration, Instant};

use vstd::prelude::*;

use crate::clock::{instant_elapsed, instant_now};

use crate::text::{
    chars_of, is_ws, parse_unsigned_chars, parse_unsigned_spec, skip_token_at, skip_ws_at, slice_chars, split_on,
    token_len, ws_prefix_len, IntErrorKind,
};

verus! {

/// Platform metadata for the current process target.
#[derive(Clone, Debug, PartialEq, Eq)]
pub struct PlatformStatus {
    pub os: &'static str,
    pub arch: &'static str,
    pub family: &'static str,
}

/// Memory usage for the current process; values are optional because
/// process memory APIs are platform-specific.
#[derive(Clone, Debug, PartialEq, Eq)]
pub struct MemoryStatus {
    /// Resident memory in bytes (working set size).
    pub resident_bytes: Option<u64>,
    /// Virtual memory in bytes, when available.
    pub virtual_bytes: Option<u64>,
}

impl Default for MemoryStatus {
    fn default() -> (m: MemoryStatus)
        ensures
            m.resident_bytes is None,
            m.virtual_bytes is None,
    {
        MemoryStatus::unavailable()
    }
}

impl MemoryStatus {
    /// A status with no figures, for platforms that offer none.
    pub fn unavailable() -> (m: MemoryStatus)
        ensures
            m.resident_bytes is None,
            m.virtual_bytes is None,
    {
        MemoryStatus { resident_bytes: None, virtual_bytes: None }
    }

    /// Whether any figure is known.
    pub fn is_available(&self) -> (r: bool)
        ensures
            r == (self.resident_bytes is Some || self.virtual_bytes is Some),
    {
        self.resident_bytes.is_some() || self.virtual_bytes.is_some()
    }

    /// The figures of a Linux `/proc/self/status` text: `VmRSS:` as resident
    /// and `VmSize:` as virtual memory.
    pub fn from_proc_status(status: &str) -> (m: MemoryStatus)
        ensures
            m.resident_bytes == proc_status_bytes(status@, "VmRSS:"@),
            m.virtual_bytes == proc_status_bytes(status@, "VmSize:"@),
    {
        MemoryStatus {
            resident_bytes: parse_proc_status_bytes(status, "VmRSS:"),
            virtual_bytes: parse_proc_status_bytes(status, "VmSize:"),
        }
    }
}

/// A point-in-time view of the running bot.
#[derive(Clone, Debug, PartialEq, Eq)]
pub struct BotStatus {
    /// How long the bot process has been running.
    pub uptime: Duration,
    /// Platform metadata for the current process.
    pub platform: PlatformStatus,
    /// Process memory usage, when the current platform supports it.
    pub memory: MemoryStatus,
    /// Number of plugins currently registered by the runtime.
    pub plugin_count: usize,
}

impl BotStatus {
    /// Build a status snapshot from runtime-owned values.
    pub fn collect(uptime: Duration, plugin_count: usize, platform: PlatformStatus, memory: MemoryStatus) -> (s: BotStatus)
        ensures
            s.uptime == uptime,
            s.plugin_count == plugin_count,
            s.platform == platform,
            s.memory == memory,
    {
        BotStatus { uptime, platform, memory, plugin_count }
    }
}

/// Monotonic clock used to derive bot uptime.
#[derive(Debug, Clone)]
pub struct UptimeClock {
    started_at: Instant,
}

impl UptimeClock {
    /// The instant the clock counts from.
    pub closed spec fn start(&self) -> Instant {
        self.started_at
    }

    /// A clock started now.
    pub fn started_now() -> (c: UptimeClock) {
        UptimeClock { started_at: instant_now() }
    }

    /// A clock counting from `started_at`.
    pub fn with_started_at(started_at: Instant) -> (c: UptimeClock)
        ensures
            c.start() == started_at,
    {
        UptimeClock { started_at }
    }

    /// The instant the clock counts from.
    pub fn started_at(&self) -> (i: Instant)
        ensures
            i == self.start(),
    {
        self.started_at
    }

    /// Time elapsed since the start.
    pub fn elapsed(&self) -> Duration {
        instant_elapsed(&self.started_at)
    }

    /// A status snapshot whose uptime is the time elapsed since the start.
    pub fn collect_status(&self, plugin_count: usize, platform: PlatformStatus, memory: MemoryStatus) -> (s: BotStatus)
        ensures
            s.plugin_count == plugin_count,
            s.platform == platform,
            s.memory == memory,
    {
        BotStatus::collect(self.elapsed(), plugin_count, platform, memory)
    }
}

/// The first white-space separated token of `s` and the text after it, as
/// the first step of `str::split_whitespace` finds them.
pub open spec fn next_token(s: Seq<char>) -> Option<(Seq<char>, Seq<char>)> {
    let r = s.skip(ws_prefix_len(s) as int);
    if r.len() == 0 {
        None
    } else {
        Some((r.take(token_len(r) as int), r.skip(token_len(r) as int)))
    }
}

/// `line` without one trailing `'\r'`, if it has one.
pub open spec fn strip_cr(line: Seq<char>) -> Seq<char> {
    if line.len() > 0 && line.last() == '\r' {
        line.drop_last()
    } else {
        line
    }
}

/// The lines of `s` as `str::lines` yields them: split at `'\n'`, a `'\r'`
/// before the `'\n'` removed, no final empty line after a trailing `'\n'`.
pub open spec fn text_lines(s: Seq<char>) -> Seq<Seq<char>> {
    let pieces = split_on(s, '\n');
    let ended = pieces.drop_last().map_values(|p: Seq<char>| strip_cr(p));
    if pieces.last().len() == 0 {
        ended
    } else {
        ended.push(pieces.last())
    }
}

/// The byte count one status line gives for `key`: the line must start with
/// `key`, then comes a decimal `u64` and an optional unit (`kB`/`KB` meaning
/// KiB, `B` meaning bytes; `kB` when absent).
pub open spec fn line_bytes(line: Seq<char>, key: Seq<char>) -> Option<u64> {
    if !(key.len() <= line.len() && line.take(key.len() as int) == key) {
        None
    } else {
        match next_token(line.skip(key.len() as int)) {
            None => None,
            Some((num, rest)) => match parse_unsigned_spec(num, u64::MAX as int) {
                Err(_) => None,
                Ok(v) => {
                    let unit = match next_token(rest) {
                        Some((u, _)) => u,
                        None => "kB"@,
                    };
                    if unit == "kB"@ || unit == "KB"@ {
                        if v * 1024 <= u64::MAX {
                            Some((v * 1024) as u64)
                        } else {
                            None
                        }
                    } else if unit == "B"@ {
                        Some(v as u64)
                    } else {
                        None
                    }
                },
            },
        }
    }
}

/// The first line of `lines` that gives a byte count for `key`.
pub open spec fn first_line_bytes(lines: Seq<Seq<char>>, key: Seq<char>) -> Option<u64>
    decreases lines.len(),
{
    if lines.len() == 0 {
        None
    } else {
        match line_bytes(lines[0], key) {
            Some(v) => Some(v),
            None => first_line_bytes(lines.drop_first(), key),
        }
    }
}

/// The byte count a `/proc/self/status` text gives for `key`.
pub open spec fn proc_status_bytes(status: Seq<char>, key: Seq<char>) -> Option<u64> {
    first_line_bytes(text_lines(status), key)
}

/// The first token of `cs[p..]` as a range, per [`next_token`].
fn next_token_at(cs: &Vec<char>, p: usize) -> (r: Option<(usize, usize)>)
    requires
        p <= cs@.len(),
    ensures
        match (r, next_token(cs@.skip(p as int))) {
            (None, None) => true,
            (Some((a, b)), Some((tok, rest))) => a <= b <= cs@.len() && tok == cs@.subrange(a as int, b as int)
                && rest == cs@.skip(b as int),
            _ => false,
        },
{
    let q = skip_ws_at(cs, p);
    let ghost s = cs@.skip(p as int);
    assert(s.skip(ws_prefix_len(s) as int) == cs@.skip(q as int));
    if q == cs.len() {
        return None;
    }
    let e = skip_token_at(cs, q);
    let ghost r0 = cs@.skip(q as int);
    assert(r0.take(token_len(r0) as int) == cs@.subrange(q as int, e as int));
    assert(r0.skip(token_len(r0) as int) == cs@.skip(e as int));
    Some((q, e))
}

/// The byte count one status line gives for `key` (see [`line_bytes`]).
fn line_bytes_exec(line: &Vec<char>, key: &Vec<char>) -> (r: Option<u64>)
    ensures
        r == line_bytes(line@, key@),
{
    if key.len() > line.len() {
        return None;
    }
    let head = slice_chars(line, 0, key.len());
    assert(head@ == line@.take(key@.len() as int));
    if !crate::text::chars_eq(&head, key) {
        return None;
    }
    let (a, b) = match next_token_at(line, key.len()) {
        None => return None,
        Some(t) => t,
    };
    let num = slice_chars(line, a, b);
    let v = match parse_unsigned_chars(&num, u64::MAX) {
        Err(_) => return None,
        Ok(v) => v,
    };
    let unit: Vec<char> = match next_token_at(line, b) {
        Some((c, d)) => slice_chars(line, c, d),
        None => chars_of("kB"),
    };
    if crate::text::chars_are(&unit, "kB") || crate::text::chars_are(&unit, "KB") {
        if v <= u64::MAX / 1024 {
            Some(v * 1024)
        } else {
            None
        }
    } else if crate::text::chars_are(&unit, "B") {
        Some(v)
    } else {
        None
    }
}

/// The lines of `s`, per [`text_lines`].
fn lines_of(s: &str) -> (ls: Vec<Vec<char>>)
    ensures
        crate::text::views(ls@) == text_lines(s@),
{
    let pieces = crate::text::split_chars(s, '\n');
    let ghost ps = crate::text::views(pieces@);
    proof {
        crate::text::lemma_split_len(s@, '\n');
    }
    let n = pieces.len();
    let mut ls: Vec<Vec<char>> = Vec::new();
    let mut i: usize = 0;
    while i + 1 < n
        invariant
            n == pieces@.len(),
            n >= 1,
            ps == crate::text::views(pieces@),
            i + 1 <= n,
            crate::text::views(ls@) == ps.drop_last().take(i as int).map_values(|p: Seq<char>| strip_cr(p)),
        decreases n - i,
    {
        let p = &pieces[i];
        let l = if p.len() > 0 && p[p.len() - 1] == '\r' {
            slice_chars(p, 0, p.len() - 1)
        } else {
            slice_chars(p, 0, p.len())
        };
        assert(ps[i as int] == p@);
        assert(l@ == strip_cr(p@));
        proof {
            crate::text::lemma_views_push(ls@, l);
            assert(ps.drop_last().take(i as int + 1) =~= ps.drop_last().take(i as int).push(ps[i as int]));
            assert(ps.drop_last().take(i as int + 1).map_values(|p: Seq<char>| strip_cr(p))
                =~= ps.drop_last().take(i as int).map_values(|p: Seq<char>| strip_cr(p)).push(strip_cr(ps[i as int])));
        }
        ls.push(l);
        i = i + 1;
    }
    assert(ps.drop_last().take(i as int) == ps.drop_last());
    let last = &pieces[n - 1];
    assert(ps.last() == last@);
    if last.len() > 0 {
        let l = slice_chars(last, 0, last.len());
        assert(l@ =~= last@);
        proof {
            crate::text::lemma_views_push(ls@, l);
        }
        ls.push(l);
    }
    ls
}

/// The byte count a `/proc/self/status` text gives for `key`: the value of the
/// first line that starts with `key` and carries a well-formed amount.
pub fn parse_proc_status_bytes(status: &str, key: &str) -> (r: Option<u64>)
    ensures
        r == proc_status_bytes(status@, key@),
{
    let ls = lines_of(status);
    let k = chars_of(key);
    let ghost all = crate::text::views(ls@);
    let mut i: usize = 0;
    assert(all.skip(0) == all);
    while i < ls.len()
        invariant
            i <= ls@.len(),
            all == crate::text::views(ls@),
            all == text_lines(status@),
            k@ == key@,
            first_line_bytes(all, key@) == first_line_bytes(all.skip(i as int), key@),
        decreases ls.len() - i,
    {
        assert(all.skip(i as int).len() > 0);
        assert(all.skip(i as int)[0] == ls@[i as int]@);
        assert(all.skip(i as int).drop_first() == all.skip(i as int + 1));
        match line_bytes_exec(&ls[i], &k) {
            Some(v) => {
                assert(line_bytes(all.skip(i as int)[0], key@) == Some(v));
                assert(first_line_bytes(all.skip(i as int), key@) == Some(v));
                assert(all == text_lines(status@));
                return Some(v);
            },
            None => {},
        }
        i = i + 1;
    }
    None
}

} // verus!
