use opencode_gtk::chat::{ChatView, InfoRow, InfoRowKind, MessageKind, ToolCard};
use opencode_gtk::model::{Message, MessageInfo, MessagePart, MessagePath, MessageTokens, TokenCache, ToolState};

fn info(id: &str, role: &str) -> MessageInfo {
    MessageInfo {
        id: id.to_string(),
        session_id: None,
        role: role.to_string(),
        cost: None,
        tokens: None,
        model_id: None,
        provider_id: None,
        mode: None,
        path: None,
    }
}

fn part(kind: &str, text: Option<&str>) -> MessagePart {
    MessagePart { text: text.map(|t| t.to_string()), part_type: kind.to_string(), tool: None, state: None }
}

fn message(id: &str, role: &str, parts: Vec<MessagePart>) -> Message {
    Message { info: info(id, role), parts }
}

fn tool_part(tool: Option<&str>, title: Option<&str>, output: Option<&str>, with_state: bool) -> MessagePart {
    MessagePart {
        text: None,
        part_type: "tool".to_string(),
        tool: tool.map(|t| t.to_string()),
        state: if with_state {
            Some(ToolState { title: title.map(|t| t.to_string()), output: output.map(|t| t.to_string()) })
        } else {
            None
        },
    }
}

#[test]
fn hide_after_show_restores_messages() {
    let mut v = ChatView::new();
    v.add_message(message("m1", "user", vec![part("text", Some("hi"))]));
    let before = v.messages.clone();
    assert!(v.show_thinking());
    assert_eq!(v.messages.len(), 2);
    assert!(v.thinking);
    let last = v.messages.last().unwrap();
    assert_eq!(last.info.id, "thinking");
    assert_eq!(last.info.role, "thinking");
    assert_eq!(last.parts[0].text.as_deref(), Some("Generating..."));
    assert_eq!(last.parts[0].part_type, "thinking");
    assert_eq!(v.hide_thinking(), Some(1));
    assert_eq!(v.messages, before);
    assert!(!v.thinking);
}

#[test]
fn show_thinking_twice_adds_one_indicator() {
    let mut v = ChatView::new();
    assert!(v.show_thinking());
    assert!(!v.show_thinking());
    assert_eq!(v.messages.len(), 1);
    assert_eq!(v.hide_thinking(), Some(0));
    assert_eq!(v.hide_thinking(), None);
    assert!(v.messages.is_empty());
}

#[test]
fn hide_keeps_messages_when_indicator_gone() {
    let mut v = ChatView::new();
    v.show_thinking();
    v.set_messages(vec![message("m1", "assistant", vec![])]);
    assert!(v.thinking);
    assert!(!v.show_thinking());
    assert_eq!(v.hide_thinking(), None);
    assert_eq!(v.messages.len(), 1);
    assert!(!v.thinking);
}

#[test]
fn update_appends_to_first_part_of_first_match() {
    let mut v = ChatView::new();
    v.set_messages(vec![
        message("a", "assistant", vec![part("text", Some("Hel")), part("text", Some("x"))]),
        message("b", "assistant", vec![part("text", Some("1"))]),
        message("b", "assistant", vec![part("text", Some("2"))]),
    ]);
    assert_eq!(v.update_message("a", "lo"), Some(0));
    assert_eq!(v.messages[0].parts[0].text.as_deref(), Some("Hello"));
    assert_eq!(v.messages[0].parts[1].text.as_deref(), Some("x"));
    assert_eq!(v.update_message("b", "!"), Some(1));
    assert_eq!(v.messages[1].parts[0].text.as_deref(), Some("1!"));
    assert_eq!(v.messages[2].parts[0].text.as_deref(), Some("2"));
    assert_eq!(v.update_message("zzz", "?"), None);
    assert_eq!(v.messages.len(), 3);
}

#[test]
fn update_leaves_textless_first_part() {
    let mut v = ChatView::new();
    v.add_message(message("t", "assistant", vec![tool_part(Some("bash"), None, None, false)]));
    v.add_message(message("e", "assistant", vec![]));
    let before = v.messages.clone();
    assert_eq!(v.update_message("t", "more"), Some(0));
    assert_eq!(v.update_message("e", "more"), Some(1));
    assert_eq!(v.messages, before);
}

#[test]
fn kinds_by_role() {
    assert_eq!(ChatView::kind_of("thinking"), MessageKind::Thinking);
    assert_eq!(ChatView::kind_of("user"), MessageKind::User);
    assert_eq!(ChatView::kind_of("assistant"), MessageKind::Assistant);
    assert_eq!(ChatView::kind_of("system"), MessageKind::Hidden);
}

#[test]
fn user_and_assistant_texts() {
    let m = message(
        "m",
        "assistant",
        vec![part("text", Some("Hello ")), part("reasoning", Some("hmm")), part("text", None), part("text", Some("world"))],
    );
    assert_eq!(ChatView::user_text(&m), "Hello hmmworld");
    assert_eq!(ChatView::assistant_text(&m), "Hello world");
    assert_eq!(ChatView::assistant_text(&message("n", "assistant", vec![])), "");
}

#[test]
fn tool_cards_of_tool_parts() {
    let m = message(
        "m",
        "assistant",
        vec![
            part("text", Some("x")),
            tool_part(Some("bash"), Some("List files"), Some("a\nb"), true),
            tool_part(None, None, None, false),
            tool_part(Some("read"), None, Some("data"), true),
        ],
    );
    let cards = ChatView::tool_cards(&m);
    assert_eq!(
        cards,
        vec![
            ToolCard { header: Some("\u{1f527} bash".to_string()), title: Some("List files".to_string()), output: Some("a\nb".to_string()) },
            ToolCard { header: None, title: None, output: None },
            ToolCard { header: Some("\u{1f527} read".to_string()), title: None, output: Some("data".to_string()) },
        ]
    );
}

#[test]
fn source_text_of_parts() {
    let m = message(
        "m",
        "assistant",
        vec![
            part("text", Some("Hello")),
            tool_part(Some("bash"), Some("ls"), Some("out"), true),
            part("step-start", None),
            part("reasoning", Some("think")),
        ],
    );
    assert_eq!(
        ChatView::source_text(&m),
        "Hello\n---\n\n[Tool Call]\nTool: bash\nTitle: ls\nOutput: out\n\n---\n\n[step-start]\n\n---\n\n[reasoning]\nthink"
    );
    assert_eq!(ChatView::source_text(&message("e", "assistant", vec![])), "");
}

fn rows(rows: &[InfoRow]) -> Vec<(InfoRowKind, &str)> {
    rows.iter().map(|r| (r.kind, r.text.as_str())).collect()
}

#[test]
fn info_rows_minimal() {
    let i = info("msg_1", "assistant");
    let r = ChatView::info_rows(&i, &None);
    assert_eq!(rows(&r), vec![(InfoRowKind::Heading, "Message ID"), (InfoRowKind::CopyableValue, "msg_1")]);
}

#[test]
fn info_rows_full() {
    let mut i = info("msg_1", "assistant");
    i.session_id = Some("ses_9".to_string());
    i.provider_id = Some("acme".to_string());
    i.model_id = Some("nova".to_string());
    i.mode = Some("build".to_string());
    i.path = Some(MessagePath { cwd: "/w".to_string(), root: "/".to_string() });
    i.cost = Some(0.0123f64.to_bits());
    i.tokens = Some(MessageTokens { input: 4294967295, output: 5, reasoning: 0, cache: TokenCache { read: 7, write: 8 } });
    let cost = Some(format!("{:.6}", 0.0123f64));
    let r = ChatView::info_rows(&i, &cost);
    assert_eq!(
        rows(&r),
        vec![
            (InfoRowKind::Heading, "Message ID"),
            (InfoRowKind::CopyableValue, "msg_1"),
            (InfoRowKind::Heading, "Session ID"),
            (InfoRowKind::CopyableValue, "ses_9"),
            (InfoRowKind::Section, "Model"),
            (InfoRowKind::Value, "Provider: acme"),
            (InfoRowKind::WrappedValue, "Model: nova"),
            (InfoRowKind::Value, "Mode: build"),
            (InfoRowKind::Section, "Path"),
            (InfoRowKind::WrappedValue, "CWD: /w"),
            (InfoRowKind::WrappedValue, "Root: /"),
            (InfoRowKind::TightSection, "Usage"),
            (InfoRowKind::Value, "Cost: $0.012300"),
            (InfoRowKind::Value, "Input: 4294967295"),
            (InfoRowKind::Value, "Output: 5"),
            (InfoRowKind::Value, "Cache Read: 7"),
            (InfoRowKind::Value, "Cache Write: 8"),
            (InfoRowKind::Value, "Total: 4294967300"),
        ]
    );
}

#[test]
fn info_rows_reasoning_and_partial_model() {
    let mut i = info("m", "assistant");
    i.mode = Some("plan".to_string());
    i.tokens = Some(MessageTokens { input: 1, output: 2, reasoning: 3, cache: TokenCache { read: 0, write: 0 } });
    let r = ChatView::info_rows(&i, &None);
    assert_eq!(
        rows(&r),
        vec![
            (InfoRowKind::Heading, "Message ID"),
            (InfoRowKind::CopyableValue, "m"),
            (InfoRowKind::Section, "Model"),
            (InfoRowKind::Value, "Mode: plan"),
            (InfoRowKind::TightSection, "Usage"),
            (InfoRowKind::Value, "Input: 1"),
            (InfoRowKind::Value, "Output: 2"),
            (InfoRowKind::Value, "Reasoning: 3"),
            (InfoRowKind::Value, "Cache Read: 0"),
            (InfoRowKind::Value, "Cache Write: 0"),
            (InfoRowKind::Value, "Total: 3"),
        ]
    );
}
