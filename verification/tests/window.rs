use opencode_gtk::model::{Message, MessageInfo};
use opencode_gtk::window::{EventAction, ServerEvent, Window};

fn ev(t: Option<&str>, sid: Option<&str>, mid: Option<&str>, text: Option<&str>) -> ServerEvent {
    let o = |x: Option<&str>| x.map(|v| v.to_string());
    ServerEvent { event_type: o(t), session_id: o(sid), message_id: o(mid), text: o(text) }
}

fn msg(role: &str, model: Option<&str>, mode: Option<&str>) -> Message {
    Message {
        info: MessageInfo {
            id: "m".to_string(),
            session_id: None,
            role: role.to_string(),
            cost: None,
            tokens: None,
            model_id: model.map(|m| m.to_string()),
            provider_id: None,
            mode: mode.map(|m| m.to_string()),
            path: None,
        },
        parts: vec![],
    }
}

#[test]
fn events_for_the_current_session() {
    let mut w = Window::new();
    assert_eq!(w.handle_event(&ev(Some("message.updated"), Some("s1"), None, None)), EventAction::Ignore);
    w.select_session("s1".to_string());
    assert_eq!(w.handle_event(&ev(Some("message.updated"), Some("s1"), None, None)), EventAction::ShowThinking);
    assert_eq!(
        w.handle_event(&ev(Some("message.part.updated"), Some("s1"), Some("m1"), Some("abc"))),
        EventAction::UpdateMessage { message_id: "m1".to_string(), text: "abc".to_string() }
    );
    assert_eq!(
        w.handle_event(&ev(Some("session.idle"), Some("s1"), None, None)),
        EventAction::Reload { session_id: "s1".to_string() }
    );
}

#[test]
fn other_events_are_ignored() {
    let mut w = Window::new();
    w.select_session("s1".to_string());
    assert_eq!(w.handle_event(&ev(Some("message.updated"), Some("s2"), None, None)), EventAction::Ignore);
    assert_eq!(w.handle_event(&ev(Some("message.part.updated"), Some("s1"), None, Some("t"))), EventAction::Ignore);
    assert_eq!(w.handle_event(&ev(Some("message.part.updated"), Some("s1"), Some("m"), None)), EventAction::Ignore);
    assert_eq!(w.handle_event(&ev(Some("session.idle"), None, None, None)), EventAction::Ignore);
    assert_eq!(w.handle_event(&ev(None, Some("s1"), Some("m"), Some("t"))), EventAction::Ignore);
    assert_eq!(w.handle_event(&ev(Some("session.updated"), Some("s1"), None, None)), EventAction::Ignore);
}

#[test]
fn titles() {
    assert_eq!(Window::title_for(Some("Chat")), "Chat - OpenCode");
    assert_eq!(Window::title_for(Some("New Session")), "New Session - OpenCode");
    assert_eq!(Window::title_for(None), "OpenCode");
    assert!(Window::accepts_title(" x "));
    assert!(!Window::accepts_title(" \t"));
    assert!(Window::back_button_visible(true, true));
    assert!(!Window::back_button_visible(true, false));
    assert!(!Window::back_button_visible(false, true));
}

#[test]
fn last_answer_model_and_agent() {
    let ms = vec![
        msg("assistant", Some("nova"), Some("build")),
        msg("user", Some("x"), Some("y")),
        msg("assistant", None, Some("plan")),
        msg("user", None, None),
    ];
    assert_eq!(Window::last_model(&ms), None);
    assert_eq!(Window::last_agent(&ms), Some("plan".to_string()));
    assert_eq!(Window::last_model(&ms[..1].to_vec()), Some("nova".to_string()));
    assert_eq!(Window::last_model(&vec![msg("user", Some("m"), None)]), None);
    assert_eq!(Window::last_agent(&vec![]), None);
}

#[test]
fn stream_event_data_is_read_as_json() {
    let mut w = Window::new();
    w.select_session("ses_1".to_string());
    assert_eq!(
        w.on_stream_event(r#"{"type":"message.part.updated","properties":{"sessionID":"ses_1","messageID":"m1","text":"Hi"}}"#),
        EventAction::UpdateMessage { message_id: "m1".to_string(), text: "Hi".to_string() }
    );
    assert_eq!(w.on_stream_event(r#"{"type":"message.updated","properties":{"sessionID":"ses_1"}}"#), EventAction::ShowThinking);
    assert_eq!(
        w.on_stream_event(r#"{"type":"session.idle","properties":{"sessionID":"ses_1","extra":[1,2]}}"#),
        EventAction::Reload { session_id: "ses_1".to_string() }
    );
}

#[test]
fn stream_event_data_that_does_not_fit_is_ignored() {
    let mut w = Window::new();
    w.select_session("ses_1".to_string());
    assert_eq!(w.on_stream_event("not json"), EventAction::Ignore);
    assert_eq!(w.on_stream_event(r#"{"type":"session.idle","properties":{"sessionID":7}}"#), EventAction::Ignore);
    assert_eq!(w.on_stream_event(r#"{"type":"session.idle","properties":"ses_1"}"#), EventAction::Ignore);
    assert_eq!(w.on_stream_event(r#"{"type":5,"properties":{"sessionID":"ses_1"}}"#), EventAction::Ignore);
    assert_eq!(w.on_stream_event(r#"["session.idle"]"#), EventAction::Ignore);
    assert_eq!(
        w.on_stream_event(r#"{"type":"message.part.updated","properties":{"sessionID":"ses_1","messageID":"m1","text":null}}"#),
        EventAction::Ignore
    );
}

use opencode_gtk::window::{Reply, ReplyEffects};

fn none() -> ReplyEffects {
    ReplyEffects {
        refresh_sessions: false,
        clear_messages: false,
        show_loaded_messages: false,
        input_session: None,
        title: None,
        show_content: false,
        toast: None,
        load_messages_of: None,
        post_pending_message: false,
    }
}

fn toast(t: &str) -> ReplyEffects {
    ReplyEffects { toast: Some(t.to_string()), ..none() }
}

#[test]
fn created_session_is_put_on_show() {
    let mut w = Window::new();
    let e = w.on_reply(Reply::SessionCreated { session_id: "s9".to_string(), for_message: false });
    assert_eq!(
        e,
        ReplyEffects {
            refresh_sessions: true,
            clear_messages: true,
            input_session: Some("s9".to_string()),
            title: Some("New Session - OpenCode".to_string()),
            show_content: true,
            ..none()
        }
    );
    assert_eq!(w.current_session_id.as_deref(), Some("s9"));
    let e = w.on_reply(Reply::SessionCreated { session_id: "s10".to_string(), for_message: true });
    assert_eq!(
        e,
        ReplyEffects {
            refresh_sessions: true,
            clear_messages: true,
            input_session: Some("s10".to_string()),
            post_pending_message: true,
            ..none()
        }
    );
    assert_eq!(w.current_session_id.as_deref(), Some("s10"));
    assert_eq!(w.on_reply(Reply::CreateFailed), none());
    assert_eq!(w.current_session_id.as_deref(), Some("s10"));
}

#[test]
fn rename_fork_and_delete_replies() {
    let mut w = Window::new();
    w.select_session("s1".to_string());
    assert_eq!(
        w.on_reply(Reply::Renamed { title: "Plans".to_string() }),
        ReplyEffects {
            refresh_sessions: true,
            title: Some("Plans - OpenCode".to_string()),
            toast: Some("Session renamed".to_string()),
            ..none()
        }
    );
    assert_eq!(w.on_reply(Reply::RenameFailed), toast("Failed to rename session"));
    assert_eq!(
        w.on_reply(Reply::Forked { session_id: "s2".to_string() }),
        ReplyEffects { refresh_sessions: true, load_messages_of: Some("s2".to_string()), ..none() }
    );
    assert_eq!(w.on_reply(Reply::ForkFailed), toast("Failed to fork session"));
    assert_eq!(
        w.on_reply(Reply::ForkMessagesLoaded { session_id: "s2".to_string() }),
        ReplyEffects {
            show_loaded_messages: true,
            input_session: Some("s2".to_string()),
            toast: Some("Session forked".to_string()),
            show_content: true,
            ..none()
        }
    );
    assert_eq!(w.on_reply(Reply::ForkMessagesFailed), toast("Failed to load forked session"));
    assert_eq!(
        w.on_reply(Reply::Deleted),
        ReplyEffects { refresh_sessions: true, clear_messages: true, toast: Some("Session deleted".to_string()), ..none() }
    );
    assert_eq!(w.on_reply(Reply::DeleteFailed), toast("Failed to delete session"));
    assert_eq!(w.current_session_id.as_deref(), Some("s1"));
}
