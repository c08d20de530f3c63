use opencode_gtk::markdown::{markdown_to_pango, Markdown, MdEvent, MdTag};

fn render(md: &str) -> String {
    let doc = Markdown::parse(md);
    let texts = doc.texts();
    markdown_to_pango(&doc, &texts)
}

fn escape(s: &str) -> String {
    s.replace('&', "&amp;").replace('<', "&lt;").replace('>', "&gt;")
}

#[test]
fn parse_reduces_events() {
    let doc = Markdown::parse("**b** `c`");
    assert_eq!(
        doc.events,
        vec![
            MdEvent::Start(MdTag::Paragraph),
            MdEvent::Start(MdTag::Strong),
            MdEvent::Text("b".to_string()),
            MdEvent::End(MdTag::Strong),
            MdEvent::Text(" ".to_string()),
            MdEvent::Code("c".to_string()),
            MdEvent::End(MdTag::Paragraph),
        ]
    );
    assert_eq!(doc.texts(), vec!["b".to_string(), " ".to_string(), "c".to_string()]);
}

#[test]
fn emphasis_and_strong() {
    assert_eq!(render("**bold** and *it*"), "<b>bold</b> and <i>it</i>\n");
}

#[test]
fn heading_then_paragraph() {
    assert_eq!(render("# Title\n\nText"), "<b><big>Title</big></b>\nText\n");
    assert_eq!(render("Intro\n\n## Sub"), "Intro\n\n<b><big>Sub</big></b>\n");
}

#[test]
fn code_block_keeps_lines() {
    assert_eq!(render("```\nlet x = 1;\nlet y;\n```"), "<tt>let x = 1;\nlet y;\n</tt>\n");
    assert_eq!(render("para\n```\nx\n```"), "para\n\n<tt>x\n</tt>\n");
}

#[test]
fn lists_get_bullets() {
    assert_eq!(render("- a\n- b"), "\u{2022} a\n\u{2022} b\n\n");
    assert_eq!(render("text\n\n- a"), "text\n\n\u{2022} a\n\n");
}

#[test]
fn inline_code_and_breaks() {
    assert_eq!(render("use `x`"), "use <tt>x</tt>\n");
    assert_eq!(render("a\nb"), "a b\n");
    assert_eq!(render(""), "");
}

#[test]
fn escaped_texts_are_used_in_order() {
    let doc = Markdown::parse("a < b & `<c>`");
    let escaped: Vec<String> = doc.texts().iter().map(|t| escape(t)).collect();
    assert_eq!(markdown_to_pango(&doc, &escaped), "a &lt; b &amp; <tt>&lt;c&gt;</tt>\n");
}

#[test]
fn render_events_directly() {
    let doc = Markdown {
        events: vec![
            MdEvent::Start(MdTag::CodeBlock),
            MdEvent::Text("x".to_string()),
            MdEvent::SoftBreak,
            MdEvent::HardBreak,
            MdEvent::End(MdTag::CodeBlock),
            MdEvent::SoftBreak,
            MdEvent::Start(MdTag::Other),
            MdEvent::Other,
            MdEvent::End(MdTag::Other),
        ],
    };
    assert_eq!(markdown_to_pango(&doc, &vec!["X".to_string()]), "<tt>X\n\n</tt>\n ");
}

/// Reads markup as the library's law does: tags must nest and close.
fn tags_balanced(markup: &str) -> bool {
    let tags = ["<b>", "<i>", "<tt>", "<big>", "</b>", "</i>", "</tt>", "</big>"];
    let mut stack: Vec<&str> = Vec::new();
    let mut rest = markup;
    while let Some(c) = rest.chars().next() {
        if c == '<' {
            let Some(tag) = tags.iter().find(|t| rest.starts_with(**t)) else { return false };
            if let Some(name) = tag.strip_prefix("</") {
                if stack.pop() != Some(name.trim_end_matches('>')) {
                    return false;
                }
            } else {
                stack.push(tag[1..tag.len() - 1].as_ref());
            }
            rest = &rest[tag.len()..];
        } else if c == '>' {
            return false;
        } else {
            rest = &rest[c.len_utf8()..];
        }
    }
    stack.is_empty()
}

#[test]
fn markup_tags_nest_and_close() {
    for md in [
        "**a *b* c**",
        "# T *x*\n\n- **a**\n- `b`\n\n```\n<html>\n```",
        "1. one\n2. *two* **three `four`**",
        "> quote **q**",
        "a <b>raw</b> c & d",
    ] {
        let doc = Markdown::parse(md);
        let escaped: Vec<String> = doc.texts().iter().map(|t| escape(t)).collect();
        let markup = markdown_to_pango(&doc, &escaped);
        assert!(tags_balanced(&markup), "{}", markup);
    }
}
