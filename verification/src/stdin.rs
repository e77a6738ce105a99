//! The built-in stdin adapter's logic: each non-empty input line becomes an
//! event (a `/command args` line a command, `/file path [name]` a file
//! message, anything else a text message) carried in an administrator's
//! private chat named `stdin`; outgoing events become the lines it prints.
use vstd::prelude::*;

use crate::session::opt_view;
use crate::event::{ChatType, ContentItem, Event, EventType, FileSource, ImageSource, Message, Sender, is_text_item};
use crate::text::{
    chars_are, chars_of, debug_quoted, debug_str, owned, push_str, skip_token_at, skip_ws_at, slice_chars,
    split_at_ws, string_of, token_len, trim, trim_range, trim_start, ws_prefix_len, lemma_token_len_bound, is_ws,
    lemma_ws_prefix_len_bound,
};

verus! {

/// Built-in stdin adapter: reads lines from stdin and dispatches them as
/// events; prints what is sent to it.
pub struct StdinAdapter;

/// The path and optional file name a `/file` request names, if its path is
/// not empty: `args` split at its first white space, both parts trimmed, an
/// empty name counting as none.
pub open spec fn file_request(args: Seq<char>) -> Option<(Seq<char>, Option<Seq<char>>)> {
    let (first, rest) = split_at_ws(args);
    let path = trim(first);
    if path.len() == 0 {
        None
    } else {
        let name = match rest {
            Some(r) => if trim(r).len() > 0 {
                Some(trim(r))
            } else {
                None
            },
            None => None,
        };
        Some((path, name))
    }
}

/// A plain event of the given kind from the adapter `stdin`.
pub open spec fn from_stdin(e: Event, kind: EventType) -> bool {
    &&& e.event_type == kind
    &&& e.source@ == "stdin"@
    &&& e.data@.len() == 0
    &&& e.target_plugin is None
}

/// A file item with a local path, the given name and no platform id.
pub open spec fn is_path_file_item(c: ContentItem, path: Seq<char>, name: Option<Seq<char>>) -> bool {
    c matches ContentItem::File { source: FileSource::Path(p), file_name: n, file_id: None } && p@ == path
        && opt_view(n) == name
}

/// The message a stdin line carries: the given content, from the sender
/// `stdin`, in the private chat `stdin`, from an administrator, and nothing else.
pub open spec fn is_stdin_admin_message(m: Message, content_ok: spec_fn(Seq<ContentItem>) -> bool) -> bool {
    &&& m.id is None
    &&& m.reply_to is None
    &&& content_ok(m.content@)
    &&& m.sender matches Some(s) && s.id@ == "stdin"@ && s.has_default_metadata()
    &&& m.chat.id@ == "stdin"@
    &&& m.chat.kind == Some(ChatType::Private)
    &&& m.chat.title is None
    &&& m.chat.username is None
    &&& m.chat.extra@ == Map::<String, String>::empty()
    &&& m.at@.len() == 0
    &&& m.is_admin
    &&& m.delete_after is None
}

/// Content made of one plain text item holding `text`.
pub open spec fn one_text(text: Seq<char>) -> spec_fn(Seq<ContentItem>) -> bool {
    |c: Seq<ContentItem>| c.len() == 1 && is_text_item(c[0], text, None)
}

/// Content made of one local file item.
pub open spec fn one_file(path: Seq<char>, name: Option<Seq<char>>) -> spec_fn(Seq<ContentItem>) -> bool {
    |c: Seq<ContentItem>| c.len() == 1 && is_path_file_item(c[0], path, name)
}

/// A fresh event of the given kind from `stdin` whose only payload is a
/// message with default fields and content `content_ok` accepts.
pub open spec fn plain_stdin_event(e: Event, kind: EventType, content_ok: spec_fn(Seq<ContentItem>) -> bool) -> bool {
    &&& from_stdin(e, kind)
    &&& e.command is None
    &&& e.reply_plugin is None
    &&& match e.message {
        Some(m) => m.is_plain(m.content@) && content_ok(m.content@),
        None => false,
    }
}

/// Whether `m` is present and a stdin administrator message (see
/// [`is_stdin_admin_message`]).
pub open spec fn has_admin_message(m: Option<Message>, content_ok: spec_fn(Seq<ContentItem>) -> bool) -> bool {
    match m {
        Some(m) => is_stdin_admin_message(m, content_ok),
        None => false,
    }
}

/// `n` is `m` marked as an administrator's message, with the sender `stdin`,
/// the chat id `stdin` and the chat kind `Private` filled in where missing.
pub open spec fn admin_marked(m: Message, n: Message) -> bool {
    &&& n.id == m.id
    &&& n.reply_to == m.reply_to
    &&& n.content == m.content
    &&& n.at == m.at
    &&& n.delete_after == m.delete_after
    &&& n.is_admin
    &&& match m.sender {
        Some(_) => n.sender == m.sender,
        None => match n.sender {
            Some(s) => s.id@ == "stdin"@ && s.has_default_metadata(),
            None => false,
        },
    }
    &&& if m.chat.id@.len() > 0 {
        n.chat.id == m.chat.id
    } else {
        n.chat.id@ == "stdin"@
    }
    &&& n.chat.kind == (if m.chat.kind is Some {
        m.chat.kind
    } else {
        Some(ChatType::Private)
    })
    &&& n.chat.title == m.chat.title
    &&& n.chat.username == m.chat.username
    &&& n.chat.extra == m.chat.extra
}

/// What a stdin line parses to before the administrator context is added.
pub open spec fn parsed_line(text: Seq<char>, e: Event) -> bool {
    let plain_message = plain_stdin_event(e, EventType::Message, one_text(text));
    if text.len() > 0 && text[0] == '/' {
        let (cmd, rest) = split_at_ws(text.skip(1));
        let args = match rest {
            Some(r) => trim_start(r),
            None => Seq::empty(),
        };
        if cmd.len() == 0 {
            plain_message
        } else if cmd == "file"@ {
            match file_request(args) {
                Some((path, name)) => plain_stdin_event(e, EventType::Message, one_file(path, name)),
                None => plain_message,
            }
        } else {
            &&& from_stdin(e, EventType::Command)
            &&& e.reply_plugin is None
            &&& e.command matches Some(c) && c.cmd@ == cmd && c.args@ == args
            &&& e.message is None
        }
    } else {
        plain_message
    }
}

/// The event a non-empty stdin line becomes: the parsed event, with its
/// message (for a command, one holding the line's text) marked as an
/// administrator's message in the private chat `stdin`, replies going back
/// to the plugin `stdin`.
pub open spec fn stdin_line_event(text: Seq<char>, e: Event) -> bool {
    &&& e.reply_plugin matches Some(p) && p@ == "stdin"@
    &&& if text.len() > 0 && text[0] == '/' && split_at_ws(text.skip(1)).0.len() > 0 && split_at_ws(
        text.skip(1),
    ).0 != "file"@ {
        let (cmd, rest) = split_at_ws(text.skip(1));
        let args = match rest {
            Some(r) => trim_start(r),
            None => Seq::empty(),
        };
        &&& from_stdin(e, EventType::Command)
        &&& e.command matches Some(c) && c.cmd@ == cmd && c.args@ == args
        &&& has_admin_message(e.message, one_text(text))
    } else if text.len() > 0 && text[0] == '/' && split_at_ws(text.skip(1)).0 == "file"@ && file_request(
        match split_at_ws(text.skip(1)).1 {
            Some(r) => trim_start(r),
            None => Seq::empty(),
        },
    ) is Some {
        let (path, name) = file_request(
            match split_at_ws(text.skip(1)).1 {
                Some(r) => trim_start(r),
                None => Seq::empty(),
            },
        )->0;
        &&& from_stdin(e, EventType::Message)
        &&& e.command is None
        &&& has_admin_message(e.message, one_file(path, name))
    } else {
        &&& from_stdin(e, EventType::Message)
        &&& e.command is None
        &&& has_admin_message(e.message, one_text(text))
    }
}

/// The file event a `/file` request's arguments describe (see
/// [`file_request`]), or `None` when the path is empty.
pub fn parse_file_message(args: &str) -> (r: Option<Event>)
    ensures
        match file_request(args@) {
            Some((path, name)) => match r {
                Some(e) => plain_stdin_event(e, EventType::Message, one_file(path, name)),
                None => false,
            },
            None => r is None,
        },
{
    let cs = chars_of(args);
    file_message_of(&cs)
}

fn file_message_of(cs: &Vec<char>) -> (r: Option<Event>)
    ensures
        match file_request(cs@) {
            Some((path, name)) => match r {
                Some(e) => plain_stdin_event(e, EventType::Message, one_file(path, name)),
                None => false,
            },
            None => r is None,
        },
{
    let t = skip_token_at(cs, 0);
    proof {
        assert(cs@.skip(0) == cs@);
        lemma_token_len_bound(cs@);
    }
    let path = trim_range(cs, 0, t);
    assert(cs@.subrange(0, t as int) == cs@.take(t as int));
    if path.len() == 0 {
        return None;
    }
    let name = if t < cs.len() {
        let n = trim_range(cs, t + 1, cs.len());
        assert(cs@.subrange(t + 1, cs@.len() as int) == cs@.skip(t + 1));
        if n.len() > 0 {
            Some(string_of(&n))
        } else {
            None
        }
    } else {
        None
    };
    let p = string_of(&path);
    proof {
        reveal_strlit("stdin");
    }
    let e = Event::file_message("stdin", FileSource::Path(p), name);
    Some(e)
}

/// What a stdin line parses to (see [`parsed_line`]).
pub fn parse_stdin_line(text: &str) -> (e: Event)
    ensures
        parsed_line(text@, e),
{
    proof {
        reveal_strlit("stdin");
        reveal_strlit("file");
    }
    let cs = chars_of(text);
    if cs.len() > 0 && cs[0] == '/' {
        let t = skip_token_at(&cs, 1);
        let ghost rest = cs@.skip(1);
        proof {
            lemma_token_len_bound(rest);
            assert(rest.take(token_len(rest) as int) == cs@.subrange(1, t as int));
        }
        let cmd = slice_chars(&cs, 1, t);
        let a = if t < cs.len() {
            let a = skip_ws_at(&cs, t + 1);
            proof {
                assert(rest.skip(token_len(rest) as int + 1) == cs@.skip(t as int + 1));
                lemma_ws_prefix_len_bound(cs@.skip(t as int + 1));
                assert(trim_start(cs@.skip(t as int + 1)) == cs@.skip(a as int));
            }
            a
        } else {
            cs.len()
        };
        let args = slice_chars(&cs, a, cs.len());
        assert(args@ == match split_at_ws(rest).1 {
            Some(r) => trim_start(r),
            None => Seq::empty(),
        });
        if cmd.len() == 0 {
            Event::message("stdin", text)
        } else if chars_are(&cmd, "file") {
            match file_message_of(&args) {
                Some(e) => e,
                None => Event::message("stdin", text),
            }
        } else {
            let c = string_of(&cmd);
            let r = string_of(&args);
            Event::command("stdin", c.as_str(), r.as_str())
        }
    } else {
        Event::message("stdin", text)
    }
}

/// Marks an event as coming from an administrator in the private chat
/// `stdin`: a message keeps its content and gains the sender `stdin`, the
/// chat id `stdin` and the chat kind `Private` where those are missing; an
/// event without a message gets one holding `text`.
pub fn with_admin_context(event: Event, text: &str) -> (r: Event)
    ensures
        r.event_type == event.event_type,
        r.source == event.source,
        r.data == event.data,
        r.command == event.command,
        r.reply_plugin == event.reply_plugin,
        r.target_plugin == event.target_plugin,
        match event.message {
            Some(m) => match r.message {
                Some(n) => admin_marked(m, n),
                None => false,
            },
            None => has_admin_message(r.message, one_text(text@)),
        },
{
    let Event { event_type, source, data, command, message, reply_plugin, target_plugin } = event;
    let message = match message {
        Some(m) => {
            let Message { id, reply_to, content, sender, chat, at, is_admin: _, delete_after } = m;
            let sender = match sender {
                Some(s) => Some(s),
                None => Some(Sender::new("stdin")),
            };
            let mut chat = chat;
            if chat.id.as_str().is_empty() {
                chat.id = owned("stdin");
            }
            if chat.kind.is_none() {
                chat.kind = Some(ChatType::Private);
            }
            Message { id, reply_to, content, sender, chat, at, is_admin: true, delete_after }
        },
        None => {
            let mut content = Vec::new();
            content.push(ContentItem::text(text));
            let mut m = Message::with_content(content);
            m.sender = Some(Sender::new("stdin"));
            m.chat.id = owned("stdin");
            m.chat.kind = Some(ChatType::Private);
            m.is_admin = true;
            m
        },
    };
    Event { event_type, source, data, command, message: Some(message), reply_plugin, target_plugin }
}

/// The event a stdin line becomes, or `None` for an empty line (which ends
/// the input).
pub fn stdin_event(text: &str) -> (r: Option<Event>)
    ensures
        text@.len() == 0 <==> r is None,
        r matches Some(e) ==> stdin_line_event(text@, e),
{
    if text.is_empty() {
        return None;
    }
    let parsed = parse_stdin_line(text);
    let ghost p = parsed;
    let e = with_admin_context(parsed, text);
    proof {
        reveal_strlit("stdin");
    }
    let r = e.with_reply_plugin("stdin");
    proof {
        reveal_strlit("file");
        let t = text@;
        let (cmd, rest) = split_at_ws(t.skip(1));
        let args = match rest {
            Some(x) => trim_start(x),
            None => Seq::empty(),
        };
        if t.len() > 0 && t[0] == '/' && cmd.len() > 0 && cmd != "file"@ {
            assert(p.message is None);
            assert(has_admin_message(r.message, one_text(t)));
        } else if t.len() > 0 && t[0] == '/' && cmd == "file"@ && file_request(args) is Some {
            let (path, name) = file_request(args)->0;
            assert(plain_stdin_event(p, EventType::Message, one_file(path, name)));
            lemma_marked_plain(p.message->0, r.message->0, one_file(path, name));
        } else {
            assert(plain_stdin_event(p, EventType::Message, one_text(t)));
            lemma_marked_plain(p.message->0, r.message->0, one_text(t));
        }
    }
    Some(r)
}

/// A plain message marked as an administrator's is a stdin administrator
/// message with the same content.
proof fn lemma_marked_plain(m: Message, n: Message, content_ok: spec_fn(Seq<ContentItem>) -> bool)
    requires
        m.is_plain(m.content@),
        content_ok(m.content@),
        admin_marked(m, n),
    ensures
        is_stdin_admin_message(n, content_ok),
{
    assert(n.content@ == m.content@);
}

/// An optional text, or `-` when absent.
pub open spec fn or_dash(s: Option<String>) -> Seq<char> {
    match s {
        Some(x) => x@,
        None => "-"@,
    }
}

/// `url=..`, `path=..` or `id=..` for a file source.
pub open spec fn file_source_text(f: FileSource) -> Seq<char> {
    match f {
        FileSource::Url(u) => "url="@ + u@,
        FileSource::Path(p) => "path="@ + p@,
        FileSource::Id(i) => "id="@ + i@,
    }
}

/// What `{:?}` writes for an image source: the variant's name and its text
/// in quotes, in round brackets.
pub open spec fn image_source_debug(s: ImageSource) -> Seq<char> {
    match s {
        ImageSource::Url(x) => "Url("@ + debug_quoted(x@) + ")"@,
        ImageSource::Path(x) => "Path("@ + debug_quoted(x@) + ")"@,
        ImageSource::Id(x) => "Id("@ + debug_quoted(x@) + ")"@,
        ImageSource::Base64(x) => "Base64("@ + debug_quoted(x@) + ")"@,
    }
}

/// The line printed for one content item; text lines carry `prefix`.
pub open spec fn item_line(c: ContentItem, prefix: Seq<char>) -> Seq<char> {
    match c {
        ContentItem::Text { text, .. } => prefix + text@,
        ContentItem::File { source, file_name, file_id } => "[file] "@ + file_source_text(source) + " name="@
            + or_dash(file_name) + " id="@ + or_dash(file_id),
        ContentItem::Image { source, file_id, caption } => "[image] source="@ + image_source_debug(source)
            + " id="@ + or_dash(file_id) + " caption="@ + or_dash(caption),
        ContentItem::Other { kind, data } => "["@ + kind@ + "] "@ + data@,
    }
}

/// The lines the stdin adapter prints for an outgoing event: nothing without
/// a message; for a deletion, one line naming the message id if there is
/// one; otherwise one line per content item, text marked `[edit] ` on an edit.
pub open spec fn outgoing_lines(e: Event) -> Seq<Seq<char>> {
    match e.message {
        None => Seq::empty(),
        Some(m) => if e.event_type == EventType::MessageDelete {
            match m.id {
                Some(id) => seq!["[delete] message id="@ + id@],
                None => Seq::empty(),
            }
        } else {
            let prefix = if e.event_type == EventType::MessageEdit {
                "[edit] "@
            } else {
                Seq::empty()
            };
            m.content@.map_values(|c: ContentItem| item_line(c, prefix))
        },
    }
}

fn push_or_dash(out: &mut String, s: &Option<String>)
    ensures
        final(out)@ == old(out)@ + or_dash(*s),
{
    match s {
        Some(x) => push_str(out, x.as_str()),
        None => push_str(out, "-"),
    }
}

fn push_image_source(out: &mut String, s: &ImageSource)
    ensures
        final(out)@ == old(out)@ + image_source_debug(*s),
{
    let (name, x) = match s {
        ImageSource::Url(x) => ("Url(", x),
        ImageSource::Path(x) => ("Path(", x),
        ImageSource::Id(x) => ("Id(", x),
        ImageSource::Base64(x) => ("Base64(", x),
    };
    push_str(out, name);
    let q = debug_str(x.as_str());
    push_str(out, q.as_str());
    push_str(out, ")");
    assert(final(out)@ =~= old(out)@ + image_source_debug(*s));
}

fn item_text_line(c: &ContentItem, prefix: &str) -> (s: String)
    ensures
        s@ == item_line(*c, prefix@),
{
    let mut s = String::new();
    match c {
        ContentItem::Text { text, .. } => {
            push_str(&mut s, prefix);
            push_str(&mut s, text.as_str());
        },
        ContentItem::File { source, file_name, file_id } => {
            push_str(&mut s, "[file] ");
            match source {
                FileSource::Url(u) => {
                    push_str(&mut s, "url=");
                    push_str(&mut s, u.as_str());
                },
                FileSource::Path(p) => {
                    push_str(&mut s, "path=");
                    push_str(&mut s, p.as_str());
                },
                FileSource::Id(i) => {
                    push_str(&mut s, "id=");
                    push_str(&mut s, i.as_str());
                },
            }
            push_str(&mut s, " name=");
            push_or_dash(&mut s, file_name);
            push_str(&mut s, " id=");
            push_or_dash(&mut s, file_id);
        },
        ContentItem::Image { source, file_id, caption } => {
            push_str(&mut s, "[image] source=");
            push_image_source(&mut s, source);
            push_str(&mut s, " id=");
            push_or_dash(&mut s, file_id);
            push_str(&mut s, " caption=");
            push_or_dash(&mut s, caption);
        },
        ContentItem::Other { kind, data } => {
            push_str(&mut s, "[");
            push_str(&mut s, kind.as_str());
            push_str(&mut s, "] ");
            push_str(&mut s, data.as_str());
        },
    }
    assert(s@ =~= item_line(*c, prefix@));
    s
}

/// The lines the stdin adapter prints for `event` (see [`outgoing_lines`]).
pub fn rendered_lines(event: &Event) -> (lines: Vec<String>)
    ensures
        crate::sql::string_views(lines@) == outgoing_lines(*event),
{
    let mut lines: Vec<String> = Vec::new();
    match &event.message {
        None => {
            assert(crate::sql::string_views(lines@) =~= outgoing_lines(*event));
        },
        Some(m) => {
            if event.event_type.is_same(&EventType::MessageDelete) {
                match &m.id {
                    Some(id) => {
                        let mut l = owned("[delete] message id=");
                        push_str(&mut l, id.as_str());
                        lines.push(l);
                    },
                    None => {},
                }
                assert(crate::sql::string_views(lines@) =~= outgoing_lines(*event));
            } else {
                let prefix = if event.event_type.is_same(&EventType::MessageEdit) {
                    "[edit] "
                } else {
                    ""
                };
                proof {
                    reveal_strlit("[edit] ");
                    reveal_strlit("");
                }
                let ghost pv: Seq<char> = if event.event_type == EventType::MessageEdit {
                    "[edit] "@
                } else {
                    Seq::empty()
                };
                assert(prefix@ == pv);
                let mut i: usize = 0;
                while i < m.content.len()
                    invariant
                        i <= m.content@.len(),
                        prefix@ == pv,
                        crate::sql::string_views(lines@) == m.content@.take(i as int).map_values(
                            |c: ContentItem| item_line(c, pv),
                        ),
                    decreases m.content.len() - i,
                {
                    let ghost l0 = lines@;
                    let l = item_text_line(&m.content[i], prefix);
                    lines.push(l);
                    assert(crate::sql::string_views(lines@) =~= crate::sql::string_views(l0).push(
                        item_line(m.content@[i as int], pv),
                    ));
                    assert(m.content@.take(i as int + 1) =~= m.content@.take(i as int).push(m.content@[i as int]));
                    assert(m.content@.take(i as int + 1).map_values(|c: ContentItem| item_line(c, pv))
                        =~= m.content@.take(i as int).map_values(|c: ContentItem| item_line(c, pv)).push(
                        item_line(m.content@[i as int], pv),
                    ));
                    i = i + 1;
                }
                assert(m.content@.take(i as int) =~= m.content@);
            }
        },
    }
    lines
}

/// A command typed as `/cmd args` (a name without white space, other than
/// `file`, then one space, then arguments not starting with white space)
/// parses back to that command with those arguments.
pub proof fn lemma_command_line_round_trip(cmd: Seq<char>, args: Seq<char>, e: Event)
    requires
        cmd.len() > 0,
        forall|i: int| 0 <= i < cmd.len() ==> !is_ws(#[trigger] cmd[i]),
        cmd != "file"@,
        args.len() == 0 || !is_ws(args[0]),
        parsed_line(seq!['/'] + cmd + seq![' '] + args, e),
    ensures
        e.event_type == EventType::Command,
        e.command matches Some(c) && c.cmd@ == cmd && c.args@ == args,
        e.message is None,
{
    let t = seq!['/'] + cmd + seq![' '] + args;
    let rest = t.skip(1);
    assert(rest =~= cmd + (seq![' '] + args));
    lemma_token_len_of(cmd, seq![' '] + args);
    assert(token_len(seq![' '] + args) == 0) by {
        assert((seq![' '] + args)[0] == ' ');
    }
    assert(rest.take(cmd.len() as int) =~= cmd);
    assert(rest.skip(cmd.len() as int + 1) =~= args);
    assert(ws_prefix_len(args) == 0) by {
        if args.len() > 0 {
            assert(!is_ws(args[0]));
        }
    }
    assert(trim_start(args) =~= args);
    assert(t[0] == '/');
    assert(token_len(rest) == cmd.len());
    assert(split_at_ws(rest) == (cmd, Some(args)));
}

/// The token at the front of `a + b`, when `a` has no white space, is `a`
/// followed by the token at the front of `b`.
proof fn lemma_token_len_of(a: Seq<char>, b: Seq<char>)
    requires
        forall|i: int| 0 <= i < a.len() ==> !is_ws(#[trigger] a[i]),
    ensures
        token_len(a + b) == a.len() + token_len(b),
    decreases a.len(),
{
    if a.len() > 0 {
        assert((a + b).drop_first() =~= a.drop_first() + b);
        assert((a + b)[0] == a[0]);
        assert forall|i: int| 0 <= i < a.drop_first().len() implies !is_ws(#[trigger] a.drop_first()[i]) by {
            assert(a.drop_first()[i] == a[i + 1]);
        }
        lemma_token_len_of(a.drop_first(), b);
    } else {
        assert(a + b =~= b);
    }
}

} // verus!
