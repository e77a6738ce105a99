use snb::event::{ChatType, ContentItem, Event, EventType, FileSource, ImageSource, Message};
use snb::stdin::{parse_file_message, parse_stdin_line, rendered_lines, stdin_event, with_admin_context};

#[test]
fn stdin_message_defaults_to_admin() {
    let event = with_admin_context(Event::message("stdin", "hello"), "hello");
    let message = event.message.unwrap();

    assert_eq!(message.sender_id(), Some("stdin"));
    assert_eq!(message.chat_id(), "stdin");
    assert_eq!(message.chat.kind, Some(ChatType::Private));
    assert!(message.is_admin);
}

#[test]
fn stdin_command_carries_admin_message() {
    let event = with_admin_context(Event::command("stdin", "ping", ""), "/ping");
    let message = event.message.unwrap();

    assert_eq!(message.text(), "/ping");
    assert!(message.is_admin);
}

#[test]
fn admin_context_keeps_what_the_message_already_has() {
    let mut event = Event::message("tg", "hi");
    {
        let m = event.message.as_mut().unwrap();
        m.chat = snb::event::Chat::new("room");
        m.chat.kind = Some(ChatType::Group);
        m.sender = Some(snb::event::Sender::new("alice"));
    }
    let out = with_admin_context(event, "ignored");
    let m = out.message.unwrap();
    assert_eq!(m.sender_id(), Some("alice"));
    assert_eq!(m.chat_id(), "room");
    assert_eq!(m.chat.kind, Some(ChatType::Group));
    assert!(m.is_admin);
    assert_eq!(m.text(), "hi");
}

#[test]
fn slash_lines_become_commands() {
    let e = parse_stdin_line("/echo   hello world ");
    assert_eq!(e.event_type, EventType::Command);
    let c = e.command.unwrap();
    assert_eq!(c.cmd, "echo");
    assert_eq!(c.args, "hello world ");
    let bare = parse_stdin_line("/ping");
    assert_eq!(bare.command.unwrap().args, "");
}

#[test]
fn plain_and_bare_slash_lines_become_messages() {
    let e = parse_stdin_line("hello");
    assert_eq!(e.event_type, EventType::Message);
    assert_eq!(e.message.unwrap().text(), "hello");
    let slash = parse_stdin_line("/ x");
    assert_eq!(slash.event_type, EventType::Message);
    assert_eq!(slash.message.unwrap().text(), "/ x");
}

#[test]
fn file_lines_become_file_messages() {
    let e = parse_stdin_line("/file  /tmp/a.txt  report.txt ");
    let m = e.message.unwrap();
    match &m.content[0] {
        ContentItem::File { source: FileSource::Path(p), file_name, file_id } => {
            assert_eq!(p, "/tmp/a.txt");
            assert_eq!(file_name.as_deref(), Some("report.txt"));
            assert!(file_id.is_none());
        }
        _ => panic!("expected a file item"),
    }
    let no_path = parse_stdin_line("/file");
    assert_eq!(no_path.message.unwrap().text(), "/file");
    assert!(parse_file_message("").is_none());
    let only_path = parse_file_message("x.bin   ").unwrap();
    match &only_path.message.unwrap().content[0] {
        ContentItem::File { file_name, .. } => assert!(file_name.is_none()),
        _ => panic!("expected a file item"),
    }
}

#[test]
fn empty_line_ends_input_and_others_reply_to_stdin() {
    assert!(stdin_event("").is_none());
    let e = stdin_event("/ping").unwrap();
    assert_eq!(e.reply_plugin.as_deref(), Some("stdin"));
    assert_eq!(e.command.as_ref().unwrap().cmd, "ping");
    let m = e.message.unwrap();
    assert!(m.is_admin);
    assert_eq!(m.text(), "/ping");
    assert_eq!(m.chat_id(), "stdin");
}

#[test]
fn outgoing_lines_render_each_item() {
    let mut e = Event::message("bot", "hi");
    e.message.as_mut().unwrap().content.push(ContentItem::File {
        source: FileSource::Url("http://x".into()),
        file_name: None,
        file_id: Some("f1".into()),
    });
    e.message.as_mut().unwrap().content.push(ContentItem::Image {
        source: ImageSource::Path("a\"b.png".into()),
        file_id: None,
        caption: Some("cap".into()),
    });
    e.message.as_mut().unwrap().content.push(ContentItem::Other { kind: "sticker".into(), data: "s1".into() });
    assert_eq!(
        rendered_lines(&e),
        vec![
            "hi".to_string(),
            "[file] url=http://x name=- id=f1".to_string(),
            "[image] source=Path(\"a\\\"b.png\") id=- caption=cap".to_string(),
            "[sticker] s1".to_string(),
        ]
    );
}

#[test]
fn outgoing_edits_and_deletes() {
    let edit = Event::message_edit("bot", "9", "new", None);
    assert_eq!(rendered_lines(&edit), vec!["[edit] new".to_string()]);
    let del = Event::message_delete("bot", "9");
    assert_eq!(rendered_lines(&del), vec!["[delete] message id=9".to_string()]);
    let mut anon = Event::message_delete("bot", "9");
    anon.message = Some(Message::default());
    assert!(rendered_lines(&anon).is_empty());
    let none = Event::typed(EventType::PluginLoaded, "bot", "x");
    assert!(rendered_lines(&none).is_empty());
}
