//! The event model that flows through the dispatch loop: event kinds, parsed
//! commands, message content items, senders, chats and messages.
use std::collections::BTreeMap;
use std::time::Duration;

use vstd::prelude::*;

use crate::text::{owned, push_str};

verus! {

/// Discriminant for [`Event`]. The structured payload (parsed command,
/// message text, etc.) lives in the corresponding `Option` field of the event.
#[derive(Debug, Clone, PartialEq, Eq)]
pub enum EventType {
    PluginLoaded,
    PluginUnloaded,
    Command,
    Message,
    MessageSent,
    MessageEdit,
    MessageDelete,
    Other(String),
}

impl EventType {
    /// Whether two event kinds are the same kind (an `Other` kind by its text).
    pub open spec fn same_kind(self, other: EventType) -> bool {
        match (self, other) {
            (EventType::Other(a), EventType::Other(b)) => a@ == b@,
            (EventType::Other(_), _) => false,
            (_, EventType::Other(_)) => false,
            _ => self == other,
        }
    }

    /// Compares two event kinds, as `==` does.
    pub fn is_same(&self, other: &EventType) -> (r: bool)
        ensures
            r == self.same_kind(*other),
    {
        match (self, other) {
            (EventType::Other(a), EventType::Other(b)) => crate::text::str_eq(a.as_str(), b.as_str()),
            (EventType::PluginLoaded, EventType::PluginLoaded) => true,
            (EventType::PluginUnloaded, EventType::PluginUnloaded) => true,
            (EventType::Command, EventType::Command) => true,
            (EventType::Message, EventType::Message) => true,
            (EventType::MessageSent, EventType::MessageSent) => true,
            (EventType::MessageEdit, EventType::MessageEdit) => true,
            (EventType::MessageDelete, EventType::MessageDelete) => true,
            _ => false,
        }
    }
}

/// A parsed command invocation: `cmd` is the bare command name (without any
/// prefix like `/`), `args` is everything that followed it on the same line.
#[derive(Debug, Clone)]
pub struct Command {
    pub cmd: String,
    pub args: String,
}

/// Source of an image attachment.
#[derive(Debug, Clone)]
pub enum ImageSource {
    /// Remote URL.
    Url(String),
    /// Local image path.
    Path(String),
    /// Platform-assigned file ID.
    Id(String),
    /// Base64-encoded image data.
    Base64(String),
}

/// Source of a file attachment.
#[derive(Debug, Clone)]
pub enum FileSource {
    /// Remote URL.
    Url(String),
    /// Local file path.
    Path(String),
    /// Platform-assigned file ID.
    Id(String),
}

/// Text formatting mode for platforms that support parsed markup.
#[derive(Debug, Clone, Copy, PartialEq, Eq)]
pub enum TextFormat {
    Markdown,
    MarkdownV2,
    Html,
}

/// A single content item within a message (a message can hold several).
#[derive(Debug, Clone)]
pub enum ContentItem {
    Text { text: String, format: Option<TextFormat> },
    Image {
        source: ImageSource,
        /// Optional platform-assigned file ID.
        file_id: Option<String>,
        /// Optional image caption.
        caption: Option<String>,
    },
    File { source: FileSource, file_name: Option<String>, file_id: Option<String> },
    /// Platform-specific custom content type.
    Other { kind: String, data: String },
}

impl ContentItem {
    /// Build a plain text content item.
    pub fn text(text: &str) -> (c: ContentItem)
        ensures
            c matches ContentItem::Text { text: t, format } && t@ == text@ && format is None,
    {
        ContentItem::Text { text: owned(text), format: None }
    }

    /// Build a formatted text content item.
    pub fn formatted_text(text: &str, format: TextFormat) -> (c: ContentItem)
        ensures
            c matches ContentItem::Text { text: t, format: f } && t@ == text@ && f == Some(format),
    {
        ContentItem::Text { text: owned(text), format: Some(format) }
    }
}

/// Whether `c` is a text item with the given text and format.
pub open spec fn is_text_item(c: ContentItem, text: Seq<char>, format: Option<TextFormat>) -> bool {
    c matches ContentItem::Text { text: t, format: f } && t@ == text && f == format
}

/// Whether the optional id `id` is present and equal to `expected`.
pub open spec fn id_is(id: Option<String>, expected: Seq<char>) -> bool {
    id matches Some(i) && i@ == expected
}

/// The text an item contributes to [`Message::text`]: its text for a text
/// item, nothing for any other item.
pub open spec fn item_text(c: ContentItem) -> Seq<char> {
    match c {
        ContentItem::Text { text, .. } => text@,
        _ => Seq::empty(),
    }
}

/// The concatenation of the texts of all text items, in order.
pub open spec fn texts(content: Seq<ContentItem>) -> Seq<char>
    decreases content.len(),
{
    if content.len() == 0 {
        Seq::empty()
    } else {
        texts(content.drop_last()) + item_text(content.last())
    }
}

/// Chat context type. Adapters record the exact platform kind (e.g. Telegram
/// "supergroup") in `Chat::extra["raw_kind"]`.
#[derive(Debug, Clone, PartialEq, Eq)]
pub enum ChatType {
    /// Private / one-on-one chat.
    Private,
    /// Group chat.
    Group,
    /// Broadcast channel.
    Channel,
    /// Platform-specific custom type.
    Other(String),
}

/// A message sender's identity and metadata. `id` is the platform user id used
/// for routing/auth; the rest is best-effort display metadata.
#[derive(Debug, Clone, PartialEq, Eq)]
pub struct Sender {
    /// Platform-assigned user id (canonical; used for auth and session keys).
    pub id: String,
    /// Public @username, if the user has one.
    pub username: Option<String>,
    /// Human-readable display name.
    pub display_name: Option<String>,
    /// Given name, if the platform exposes name parts.
    pub first_name: Option<String>,
    /// Family name, if the platform exposes name parts.
    pub last_name: Option<String>,
    /// Whether the sender is a bot.
    pub is_bot: bool,
    /// Language code the sender's client reports.
    pub language: Option<String>,
    /// Platform-specific / not-yet-typed metadata.
    pub extra: BTreeMap<String, String>,
}

impl Sender {
    /// Whether every piece of metadata besides the id is absent.
    pub open spec fn has_default_metadata(self) -> bool {
        &&& self.username is None
        &&& self.display_name is None
        &&& self.first_name is None
        &&& self.last_name is None
        &&& !self.is_bot
        &&& self.language is None
        &&& self.extra@ == Map::<String, String>::empty()
    }

    /// Build a sender carrying only its id; metadata defaults to absent.
    pub fn new(id: &str) -> (s: Sender)
        ensures
            s.id@ == id@,
            s.has_default_metadata(),
    {
        Sender {
            id: owned(id),
            username: None,
            display_name: None,
            first_name: None,
            last_name: None,
            is_bot: false,
            language: None,
            extra: BTreeMap::new(),
        }
    }
}

impl Default for Sender {
    fn default() -> (s: Sender)
        ensures
            s.id@ == Seq::<char>::empty(),
            s.has_default_metadata(),
    {
        proof {
            reveal_strlit("");
        }
        Sender::new("")
    }
}

/// A chat / conversation's identity and metadata. `id` is the platform chat id
/// used for routing; the rest is best-effort.
#[derive(Debug, Clone, PartialEq, Eq)]
pub struct Chat {
    /// Platform-assigned chat id (canonical; the outgoing send target).
    pub id: String,
    /// Chat context type. `None` when unknown.
    pub kind: Option<ChatType>,
    /// Group/channel title (absent for private chats).
    pub title: Option<String>,
    /// Public @username/handle of the chat, if any.
    pub username: Option<String>,
    /// Platform-specific / not-yet-typed metadata.
    pub extra: BTreeMap<String, String>,
}

impl Chat {
    /// Whether every piece of metadata besides the id is absent.
    pub open spec fn has_default_metadata(self) -> bool {
        &&& self.kind is None
        &&& self.title is None
        &&& self.username is None
        &&& self.extra@ == Map::<String, String>::empty()
    }

    /// Build a chat carrying only its id; metadata defaults to absent.
    pub fn new(id: &str) -> (c: Chat)
        ensures
            c.id@ == id@,
            c.has_default_metadata(),
    {
        Chat { id: owned(id), kind: None, title: None, username: None, extra: BTreeMap::new() }
    }
}

impl Default for Chat {
    fn default() -> (c: Chat)
        ensures
            c.id@ == Seq::<char>::empty(),
            c.has_default_metadata(),
    {
        proof {
            reveal_strlit("");
        }
        Chat::new("")
    }
}

/// A non-command message.
#[derive(Debug, Clone)]
pub struct Message {
    /// Message ID assigned by the adapter, used for reply references.
    pub id: Option<String>,
    /// ID of the message being replied to.
    pub reply_to: Option<String>,
    /// Content items (text, images, files, etc.).
    pub content: Vec<ContentItem>,
    /// Sender identity + metadata; `None` when there is no human sender.
    pub sender: Option<Sender>,
    /// Chat identity + metadata (the routing id).
    pub chat: Chat,
    /// Users mentioned / @-ed in this message.
    pub at: Vec<String>,
    /// Whether the sender is an administrator in this chat/context
    /// (`false` when unknown).
    pub is_admin: bool,
    /// Delete this outgoing message after the given duration, if supported.
    pub delete_after: Option<Duration>,
}

impl Message {
    /// A message whose every field is empty, absent or false, holding `content`.
    pub open spec fn is_plain(self, content: Seq<ContentItem>) -> bool {
        &&& self.id is None
        &&& self.reply_to is None
        &&& self.content@ == content
        &&& self.sender is None
        &&& self.chat.id@ == Seq::<char>::empty()
        &&& self.chat.has_default_metadata()
        &&& self.at@ == Seq::<String>::empty()
        &&& !self.is_admin
        &&& self.delete_after is None
    }

    /// A message with the given content and every other field at its default.
    pub fn with_content(content: Vec<ContentItem>) -> (m: Message)
        ensures
            m.is_plain(content@),
    {
        proof {
            reveal_strlit("");
        }
        let chat = Chat::new("");
        assert(chat.id@ == Seq::<char>::empty());
        let at: Vec<String> = Vec::new();
        assert(at@ == Seq::<String>::empty());
        let m = Message {
            id: None,
            reply_to: None,
            content,
            sender: None,
            chat,
            at,
            is_admin: false,
            delete_after: None,
        };
        assert(m.content@ == content@);
        m
    }

    /// Concatenate all text content items into a single string.
    pub fn text(&self) -> (s: String)
        ensures
            s@ == texts(self.content@),
    {
        let mut s = String::new();
        let mut i: usize = 0;
        while i < self.content.len()
            invariant
                i <= self.content.len(),
                s@ == texts(self.content@.take(i as int)),
            decreases self.content.len() - i,
        {
            assert(self.content@.take(i as int + 1).drop_last() == self.content@.take(i as int));
            match &self.content[i] {
                ContentItem::Text { text, .. } => {
                    push_str(&mut s, text.as_str());
                },
                _ => {
                    assert(s@ + Seq::<char>::empty() == s@);
                },
            }
            i = i + 1;
        }
        assert(self.content@.take(self.content.len() as int) == self.content@);
        s
    }

    /// Returns `true` if this message contains any text content.
    pub fn has_text(&self) -> (r: bool)
        ensures
            r == exists|i: int| 0 <= i < self.content@.len() && (#[trigger] self.content@[i]) is Text,
    {
        let mut i: usize = 0;
        while i < self.content.len()
            invariant
                i <= self.content.len(),
                forall|j: int| 0 <= j < i ==> !(#[trigger] self.content@[j] is Text),
            decreases self.content.len() - i,
        {
            if let ContentItem::Text { .. } = &self.content[i] {
                return true;
            }
            i = i + 1;
        }
        false
    }

    /// The sender's platform id, if a sender is present.
    pub fn sender_id(&self) -> (r: Option<&str>)
        ensures
            match self.sender {
                Some(s) => r matches Some(id) && id@ == s.id@,
                None => r is None,
            },
    {
        match &self.sender {
            Some(s) => Some(s.id.as_str()),
            None => None,
        }
    }

    /// The chat's platform id. Empty on a default chat.
    pub fn chat_id(&self) -> (r: &str)
        ensures
            r@ == self.chat.id@,
    {
        self.chat.id.as_str()
    }
}

impl Default for Message {
    fn default() -> (m: Message)
        ensures
            m.is_plain(Seq::empty()),
    {
        Message::with_content(Vec::new())
    }
}

/// An event flowing through the dispatch loop.
#[derive(Debug, Clone)]
pub struct Event {
    pub event_type: EventType,
    /// The adapter (or component) the event came from.
    pub source: String,
    /// Free-form metadata; `PluginLoaded`/`PluginUnloaded` carry the plugin name.
    pub data: String,
    /// `Some` iff `event_type` is `Command`.
    pub command: Option<Command>,
    /// `Some` iff this event carries message-shaped data.
    pub message: Option<Message>,
    /// Originating plugin name; `Some` when the origin expects a response.
    pub reply_plugin: Option<String>,
    /// Target plugin (or adapter) name for directed routing; `None` broadcasts.
    pub target_plugin: Option<String>,
}

impl Event {
    /// An event of the given kind and source with empty data, no reply or
    /// target plugin, and the given command and message payloads.
    pub open spec fn is_fresh(self, event_type: EventType, source: Seq<char>) -> bool {
        &&& self.event_type == event_type
        &&& self.source@ == source
        &&& self.reply_plugin is None
        &&& self.target_plugin is None
    }

    /// Build a `Command` event.
    pub fn command(source: &str, cmd: &str, args: &str) -> (e: Event)
        ensures
            e.is_fresh(EventType::Command, source@),
            e.data@ == Seq::<char>::empty(),
            e.command matches Some(c) && c.cmd@ == cmd@ && c.args@ == args@,
            e.message is None,
    {
        Event {
            event_type: EventType::Command,
            source: owned(source),
            data: String::new(),
            command: Some(Command { cmd: owned(cmd), args: owned(args) }),
            message: None,
            reply_plugin: None,
            target_plugin: None,
        }
    }

    /// Build a `Message` event holding one content item.
    fn message_event(event_type: EventType, source: &str, item: ContentItem) -> (e: Event)
        ensures
            e.is_fresh(event_type, source@),
            e.data@ == Seq::<char>::empty(),
            e.command is None,
            e.message matches Some(m) && m.is_plain(seq![item]),
    {
        let mut content = Vec::new();
        content.push(item);
        Event {
            event_type,
            source: owned(source),
            data: String::new(),
            command: None,
            message: Some(Message::with_content(content)),
            reply_plugin: None,
            target_plugin: None,
        }
    }

    /// Build a `Message` event with a plain text content item.
    pub fn message(source: &str, text: &str) -> (e: Event)
        ensures
            e.is_fresh(EventType::Message, source@),
            e.data@ == Seq::<char>::empty(),
            e.command is None,
            e.message matches Some(m) && m.content@.len() == 1 && m.is_plain(m.content@)
                && is_text_item(m.content@[0], text@, None),
    {
        Event::message_event(EventType::Message, source, ContentItem::text(text))
    }

    /// Build a `Message` event with formatted text content.
    pub fn formatted_message(source: &str, text: &str, format: TextFormat) -> (e: Event)
        ensures
            e.is_fresh(EventType::Message, source@),
            e.data@ == Seq::<char>::empty(),
            e.command is None,
            e.message matches Some(m) && m.content@.len() == 1 && m.is_plain(m.content@)
                && is_text_item(m.content@[0], text@, Some(format)),
    {
        Event::message_event(EventType::Message, source, ContentItem::formatted_text(text, format))
    }

    /// Build a `Message` event with a file content item.
    pub fn file_message(source: &str, file: FileSource, file_name: Option<String>) -> (e: Event)
        ensures
            e.is_fresh(EventType::Message, source@),
            e.data@ == Seq::<char>::empty(),
            e.command is None,
            e.message matches Some(m) && m.is_plain(
                seq![ContentItem::File { source: file, file_name, file_id: None }],
            ),
    {
        Event::message_event(
            EventType::Message,
            source,
            ContentItem::File { source: file, file_name, file_id: None },
        )
    }

    /// Build a `MessageSent` event: `platform_message_id` is the adapter's
    /// native id, `request_id` the framework id the sender supplied, if any.
    pub fn message_sent(source: &str, platform_message_id: &str, request_id: Option<String>) -> (e: Event)
        ensures
            e.is_fresh(EventType::MessageSent, source@),
            e.data@ == Seq::<char>::empty(),
            e.command is None,
            e.message matches Some(m) && id_is(m.id, platform_message_id@)
                && m.reply_to == request_id && m.content@.len() == 0 && m.sender is None
                && m.chat.id@ == Seq::<char>::empty() && m.chat.has_default_metadata()
                && m.at@.len() == 0 && !m.is_admin && m.delete_after is None,
    {
        let mut m = Message::with_content(Vec::new());
        m.id = Some(owned(platform_message_id));
        m.reply_to = request_id;
        Event {
            event_type: EventType::MessageSent,
            source: owned(source),
            data: String::new(),
            command: None,
            message: Some(m),
            reply_plugin: None,
            target_plugin: None,
        }
    }

    /// Build a `MessageEdit` event that replaces the text of an already-sent
    /// message identified by its native adapter id.
    pub fn message_edit(source: &str, platform_message_id: &str, text: &str, format: Option<TextFormat>) -> (e: Event)
        ensures
            e.is_fresh(EventType::MessageEdit, source@),
            e.data@ == Seq::<char>::empty(),
            e.command is None,
            e.message matches Some(m) && id_is(m.id, platform_message_id@)
                && m.reply_to is None && m.content@.len() == 1
                && is_text_item(m.content@[0], text@, format) && m.sender is None && m.chat.id@ == Seq::<char>::empty()
                && m.chat.has_default_metadata() && m.at@.len() == 0 && !m.is_admin
                && m.delete_after is None,
    {
        let mut content = Vec::new();
        content.push(ContentItem::Text { text: owned(text), format });
        let mut m = Message::with_content(content);
        m.id = Some(owned(platform_message_id));
        Event {
            event_type: EventType::MessageEdit,
            source: owned(source),
            data: String::new(),
            command: None,
            message: Some(m),
            reply_plugin: None,
            target_plugin: None,
        }
    }

    /// Build a `MessageDelete` event for the message with the given native id.
    pub fn message_delete(source: &str, platform_message_id: &str) -> (e: Event)
        ensures
            e.is_fresh(EventType::MessageDelete, source@),
            e.data@ == Seq::<char>::empty(),
            e.command is None,
            e.message matches Some(m) && id_is(m.id, platform_message_id@)
                && m.reply_to is None && m.content@.len() == 0 && m.sender is None
                && m.chat.id@ == Seq::<char>::empty() && m.chat.has_default_metadata()
                && m.at@.len() == 0 && !m.is_admin && m.delete_after is None,
    {
        let mut m = Message::with_content(Vec::new());
        m.id = Some(owned(platform_message_id));
        Event {
            event_type: EventType::MessageDelete,
            source: owned(source),
            data: String::new(),
            command: None,
            message: Some(m),
            reply_plugin: None,
            target_plugin: None,
        }
    }

    /// Build an event with no structured payload (plugin lifecycle, `Other`,
    /// etc.); `data` carries free-form context such as a plugin name.
    pub fn typed(event_type: EventType, source: &str, data: &str) -> (e: Event)
        ensures
            e.is_fresh(event_type, source@),
            e.data@ == data@,
            e.command is None,
            e.message is None,
    {
        Event {
            event_type,
            source: owned(source),
            data: owned(data),
            command: None,
            message: None,
            reply_plugin: None,
            target_plugin: None,
        }
    }

    /// Set the originating plugin name (signals that a response is expected).
    pub fn with_reply_plugin(self, plugin: &str) -> (e: Event)
        ensures
            e.reply_plugin matches Some(p) && p@ == plugin@,
            e == (Event { reply_plugin: e.reply_plugin, ..self }),
    {
        let mut e = self;
        e.reply_plugin = Some(owned(plugin));
        e
    }

    /// Set the target plugin name (directed routing, no broadcast).
    pub fn with_target_plugin(self, plugin: &str) -> (e: Event)
        ensures
            e.target_plugin matches Some(p) && p@ == plugin@,
            e == (Event { target_plugin: e.target_plugin, ..self }),
    {
        let mut e = self;
        e.target_plugin = Some(owned(plugin));
        e
    }
}

} // verus!
