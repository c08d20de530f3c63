//! The decisions of the main window: which session is current, what each
//! server event asks of the chat pane, and what the title bar says.
use vstd::prelude::*;
use crate::model::Message;
use crate::text::{blank, is_blank, str_eq};

verus! {

/// An event of the server's event stream, reduced to what the window reads
/// of it: the `type` field and, under `properties`, the `sessionID`,
/// `messageID` and `text` fields, each present only when it is a string.
#[derive(Debug, Clone, PartialEq, Eq)]
pub struct ServerEvent {
    pub event_type: Option<String>,
    pub session_id: Option<String>,
    pub message_id: Option<String>,
    pub text: Option<String>,
}

/// A [`ServerEvent`] with its fields as sequences of characters.
pub struct EventFields {
    pub event_type: Option<Seq<char>>,
    pub session_id: Option<Seq<char>>,
    pub message_id: Option<Seq<char>>,
    pub text: Option<Seq<char>>,
}

/// The characters of an optional string.
pub open spec fn opt_view(o: Option<String>) -> Option<Seq<char>> {
    match o {
        Some(s) => Some(s@),
        None => None,
    }
}

impl View for ServerEvent {
    type V = EventFields;

    open spec fn view(&self) -> EventFields {
        EventFields {
            event_type: opt_view(self.event_type),
            session_id: opt_view(self.session_id),
            message_id: opt_view(self.message_id),
            text: opt_view(self.text),
        }
    }
}

/// What `serde_json` reads of the event data `data`: its `type` field and
/// the `sessionID`, `messageID` and `text` fields of its `properties`, each
/// when it is a string; `None` when `data` is not JSON.
pub uninterp spec fn event_fields(data: Seq<char>) -> Option<EventFields>;

/// Parses `data` with `serde_json::from_str` into a `serde_json::Value`,
/// and reads with `Value::get` and `Value::as_str` its `type` field and the
/// `sessionID`, `messageID` and `text` fields under `properties`, each kept
/// only when it is a string; `None` when `data` is not JSON. The contract
/// names that reading and says nothing more of it.
#[verifier::external_body]
fn read_event(data: &str) -> (r: Option<ServerEvent>)
    ensures
        match r {
            Some(e) => event_fields(data@) == Some(e@),
            None => event_fields(data@) is None,
        },
{
    let v: serde_json::Value = serde_json::from_str(data).ok()?;
    let props = v.get("properties");
    let text = |x: Option<&serde_json::Value>| x.and_then(|y| y.as_str()).map(|y| y.to_string());
    Some(ServerEvent {
        event_type: text(v.get("type")),
        session_id: text(props.and_then(|q| q.get("sessionID"))),
        message_id: text(props.and_then(|q| q.get("messageID"))),
        text: text(props.and_then(|q| q.get("text"))),
    })
}

/// What the window does about a server event.
#[derive(Debug, Clone, PartialEq, Eq)]
pub enum EventAction {
    /// Nothing.
    Ignore,
    /// Show the "Generating..." indicator.
    ShowThinking,
    /// Hide the indicator and append `text` to message `message_id`.
    UpdateMessage { message_id: String, text: String },
    /// Load the messages and sessions again; the session went idle.
    Reload { session_id: String },
}

/// The main window's state: the session on show, if any.
pub struct Window {
    pub current_session_id: Option<String>,
}

/// The event is about the session on show.
pub open spec fn about_current(current: Option<String>, ev: EventFields) -> bool {
    current matches Some(c) && ev.session_id matches Some(s) && s == c@
}

/// The event's type is `t`.
pub open spec fn has_type(ev: EventFields, t: Seq<char>) -> bool {
    ev.event_type matches Some(e) && e == t
}

/// `a` is what the window does about `ev` while `current` is on show:
/// a message being updated shows the indicator; a new piece of a message's
/// text is appended to it; a session going idle reloads it; all only for
/// the session on show. Anything else is ignored.
pub open spec fn action_for(current: Option<String>, ev: EventFields, a: EventAction) -> bool {
    if has_type(ev, "message.updated"@) && about_current(current, ev) {
        a is ShowThinking
    } else if has_type(ev, "message.part.updated"@) && about_current(current, ev) && ev.message_id
        is Some && ev.text is Some {
        a matches EventAction::UpdateMessage { message_id, text } && message_id@
            == ev.message_id->0 && text@ == ev.text->0
    } else if has_type(ev, "session.idle"@) && about_current(current, ev) {
        a matches EventAction::Reload { session_id } && session_id@ == ev.session_id->0
    } else {
        a is Ignore
    }
}

/// The index of the last message in the role "assistant".
pub open spec fn last_assistant(ms: Seq<Message>) -> Option<int>
    decreases ms.len(),
{
    if ms.len() == 0 {
        None
    } else if ms.last().info.role@ == "assistant"@ {
        Some(ms.len() - 1)
    } else {
        last_assistant(ms.drop_last())
    }
}

/// The answer chosen is the last one: its index is that of a message in the
/// role "assistant" with no such message after it, and there is none only
/// when no message is in that role.
pub proof fn lemma_last_assistant_is_last(ms: Seq<Message>)
    ensures
        match last_assistant(ms) {
            Some(i) => 0 <= i < ms.len() && ms[i].info.role@ == "assistant"@ && forall|j: int|
                i < j < ms.len() ==> (#[trigger] ms[j]).info.role@ != "assistant"@,
            None => forall|j: int| 0 <= j < ms.len() ==> (#[trigger] ms[j]).info.role@ != "assistant"@,
        },
    decreases ms.len(),
{
    if ms.len() > 0 && ms.last().info.role@ != "assistant"@ {
        let rest = ms.drop_last();
        lemma_last_assistant_is_last(rest);
        match last_assistant(rest) {
            Some(i) => {
                assert(ms[i] == rest[i]);
                assert forall|j: int| i < j < ms.len() implies (#[trigger] ms[j]).info.role@
                    != "assistant"@ by {
                    if j < ms.len() - 1 {
                        assert(ms[j] == rest[j]);
                    }
                }
            },
            None => {
                assert forall|j: int| 0 <= j < ms.len() implies (#[trigger] ms[j]).info.role@
                    != "assistant"@ by {
                    if j < ms.len() - 1 {
                        assert(ms[j] == rest[j]);
                    }
                }
            },
        }
    }
}

/// A message in the role "assistant" with no such message after it is the
/// one chosen.
proof fn lemma_last_assistant_unique(ms: Seq<Message>, i: int)
    requires
        0 <= i < ms.len(),
        ms[i].info.role@ == "assistant"@,
        forall|j: int| i < j < ms.len() ==> (#[trigger] ms[j]).info.role@ != "assistant"@,
    ensures
        last_assistant(ms) == Some(i),
{
    lemma_last_assistant_is_last(ms);
    match last_assistant(ms) {
        Some(k) => {
            assert(!(k < i)) by {
                if k < i {
                    assert(ms[i].info.role@ != "assistant"@);
                }
            }
            assert(!(i < k)) by {
                if i < k {
                    assert(ms[k].info.role@ != "assistant"@);
                }
            }
        },
        None => {
            assert(ms[i].info.role@ != "assistant"@);
        },
    }
}

fn same_session(current: &Option<String>, ev: &ServerEvent) -> (b: bool)
    ensures
        b == about_current(*current, ev@),
{
    match (current, &ev.session_id) {
        (Some(c), Some(s)) => str_eq(s.as_str(), c.as_str()),
        _ => false,
    }
}

fn type_is(ev: &ServerEvent, t: &str) -> (b: bool)
    ensures
        b == has_type(ev@, t@),
{
    match &ev.event_type {
        Some(e) => str_eq(e.as_str(), t),
        None => false,
    }
}

impl Window {
    /// No session on show.
    pub fn new() -> (w: Window)
        ensures
            w.current_session_id is None,
    {
        Window { current_session_id: None }
    }

    /// Puts `session_id` on show.
    pub fn select_session(&mut self, session_id: String)
        ensures
            final(self).current_session_id == Some(session_id),
    {
        self.current_session_id = Some(session_id);
    }

    /// What to do about a server event.
    pub fn handle_event(&self, ev: &ServerEvent) -> (a: EventAction)
        ensures
            action_for(self.current_session_id, ev@, a),
            !(a is Ignore) ==> (self.current_session_id matches Some(c) && ev.session_id matches Some(
                s,
            ) && s@ == c@),
    {
        proof {
            lemma_acted_on_only_for_current(self.current_session_id, ev@);
        }
        let current = same_session(&self.current_session_id, ev);
        if type_is(ev, "message.updated") && current {
            return EventAction::ShowThinking;
        }
        if type_is(ev, "message.part.updated") && current {
            if let (Some(m), Some(t)) = (&ev.message_id, &ev.text) {
                return EventAction::UpdateMessage { message_id: m.clone(), text: t.clone() };
            }
        }
        if type_is(ev, "session.idle") && current {
            if let Some(s) = &ev.session_id {
                return EventAction::Reload { session_id: s.clone() };
            }
        }
        EventAction::Ignore
    }

    /// What to do about the data of an event of the server's event stream:
    /// nothing when it is not JSON, otherwise as [`Window::handle_event`].
    pub fn on_stream_event(&self, data: &str) -> (a: EventAction)
        ensures
            match event_fields(data@) {
                Some(ev) => action_for(self.current_session_id, ev, a),
                None => a is Ignore,
            },
            !(a is Ignore) ==> (event_fields(data@) matches Some(ev) && self.current_session_id
                matches Some(c) && ev.session_id matches Some(s) && s == c@),
    {
        match read_event(data) {
            Some(ev) => self.handle_event(&ev),
            None => EventAction::Ignore,
        }
    }

    /// The title bar's text: "<title> - OpenCode", or "OpenCode" when there
    /// is no title.
    pub fn title_for(title: Option<&str>) -> (t: String)
        ensures
            t@ == match title {
                Some(s) => s@ + " - OpenCode"@,
                None => "OpenCode"@,
            },
    {
        match title {
            Some(s) => {
                let mut t = String::from_str(s);
                t.append(" - OpenCode");
                t
            },
            None => String::from_str("OpenCode"),
        }
    }

    /// The model of the last answer among `messages`, to be chosen again.
    pub fn last_model(messages: &Vec<Message>) -> (m: Option<String>)
        ensures
            match last_assistant(messages@) {
                Some(i) => crate::chat::same_text(m, messages@[i].info.model_id),
                None => m is None,
            },
            forall|i: int|
                0 <= i < messages@.len() && (#[trigger] messages@[i]).info.role@ == "assistant"@
                    && (forall|j: int|
                    i < j < messages@.len() ==> (#[trigger] messages@[j]).info.role@
                        != "assistant"@) ==> crate::chat::same_text(m, messages@[i].info.model_id),
            messages@.len() > 0 && messages@.last().info.role@ == "assistant"@
                ==> crate::chat::same_text(m, messages@.last().info.model_id),
            (forall|j: int|
                0 <= j < messages@.len() ==> (#[trigger] messages@[j]).info.role@ != "assistant"@)
                ==> m is None,
    {
        proof {
            lemma_last_assistant_is_last(messages@);
            assert forall|i: int|
                0 <= i < messages@.len() && (#[trigger] messages@[i]).info.role@ == "assistant"@
                    && (forall|j: int|
                    i < j < messages@.len() ==> (#[trigger] messages@[j]).info.role@
                        != "assistant"@) implies last_assistant(messages@) == Some(i) by {
                lemma_last_assistant_unique(messages@, i);
            }
            if messages@.len() > 0 && messages@.last().info.role@ == "assistant"@ {
                lemma_last_assistant_unique(messages@, messages@.len() - 1);
            }
        }
        match Self::last_assistant_index(messages) {
            Some(i) => match &messages[i].info.model_id {
                Some(s) => Some(s.clone()),
                None => None,
            },
            None => None,
        }
    }

    /// The mode (agent) of the last answer among `messages`, to be chosen
    /// again.
    pub fn last_agent(messages: &Vec<Message>) -> (m: Option<String>)
        ensures
            match last_assistant(messages@) {
                Some(i) => crate::chat::same_text(m, messages@[i].info.mode),
                None => m is None,
            },
            forall|i: int|
                0 <= i < messages@.len() && (#[trigger] messages@[i]).info.role@ == "assistant"@
                    && (forall|j: int|
                    i < j < messages@.len() ==> (#[trigger] messages@[j]).info.role@
                        != "assistant"@) ==> crate::chat::same_text(m, messages@[i].info.mode),
            messages@.len() > 0 && messages@.last().info.role@ == "assistant"@
                ==> crate::chat::same_text(m, messages@.last().info.mode),
            (forall|j: int|
                0 <= j < messages@.len() ==> (#[trigger] messages@[j]).info.role@ != "assistant"@)
                ==> m is None,
    {
        proof {
            lemma_last_assistant_is_last(messages@);
            assert forall|i: int|
                0 <= i < messages@.len() && (#[trigger] messages@[i]).info.role@ == "assistant"@
                    && (forall|j: int|
                    i < j < messages@.len() ==> (#[trigger] messages@[j]).info.role@
                        != "assistant"@) implies last_assistant(messages@) == Some(i) by {
                lemma_last_assistant_unique(messages@, i);
            }
            if messages@.len() > 0 && messages@.last().info.role@ == "assistant"@ {
                lemma_last_assistant_unique(messages@, messages@.len() - 1);
            }
        }
        match Self::last_assistant_index(messages) {
            Some(i) => match &messages[i].info.mode {
                Some(s) => Some(s.clone()),
                None => None,
            },
            None => None,
        }
    }

    fn last_assistant_index(messages: &Vec<Message>) -> (r: Option<usize>)
        ensures
            match r {
                Some(i) => last_assistant(messages@) == Some(i as int) && i < messages@.len(),
                None => last_assistant(messages@) is None,
            },
    {
        let mut n: usize = messages.len();
        assert(messages@.take(n as int) == messages@);
        while n > 0
            invariant
                n <= messages@.len(),
                last_assistant(messages@) == last_assistant(messages@.take(n as int)),
            decreases n,
        {
            assert(messages@.take(n as int).last() == messages@[n - 1]);
            assert(messages@.take(n as int).drop_last() == messages@.take(n - 1));
            if str_eq(messages[n - 1].info.role.as_str(), "assistant") {
                return Some(n - 1);
            }
            n = n - 1;
        }
        None
    }

    /// Whether a session is renamed to `text`: only when it holds more than
    /// white space.
    pub fn accepts_title(text: &str) -> (b: bool)
        ensures
            b == !blank(text@),
    {
        !is_blank(text)
    }

    /// Whether the back button shows: only while the content is shown in a
    /// collapsed split view.
    pub fn back_button_visible(shows_content: bool, collapsed: bool) -> (b: bool)
        ensures
            b == (shows_content && collapsed),
    {
        shows_content && collapsed
    }
}

} // verus!

verus! {

/// The window acts only on events about the session on show: whatever it
/// does about an event other than ignoring it needs the event to carry a
/// session id equal to the id of the session on show. So an event without
/// a session id, or any event while no session is on show, is ignored.
pub proof fn lemma_acted_on_only_for_current(current: Option<String>, ev: EventFields)
    ensures
        forall|a: EventAction|
            #[trigger] action_for(current, ev, a) && !(a is Ignore) ==> (current matches Some(c)
                && ev.session_id matches Some(s) && s == c@),
        ev.session_id is None ==> forall|a: EventAction|
            #[trigger] action_for(current, ev, a) ==> a is Ignore,
        current is None ==> forall|a: EventAction| #[trigger] action_for(current, ev, a) ==> a is Ignore,
{
}

/// Events about any session but the one on show are ignored, and so is
/// every event while no session is on show.
pub proof fn lemma_other_sessions_ignored(current: Option<String>, ev: EventFields, a: EventAction)
    requires
        !about_current(current, ev),
        action_for(current, ev, a),
    ensures
        a is Ignore,
{
}

} // verus!

verus! {

/// The server's answer to a request the window made about sessions.
#[derive(Debug, Clone, PartialEq, Eq)]
pub enum Reply {
    /// A session was created; `for_message` when it was created to post a
    /// message typed while no session was on show.
    SessionCreated { session_id: String, for_message: bool },
    /// Creating a session failed.
    CreateFailed,
    /// The session on show was renamed to `title`.
    Renamed { title: String },
    /// Renaming failed.
    RenameFailed,
    /// The session on show was forked into `session_id`.
    Forked { session_id: String },
    /// Forking failed.
    ForkFailed,
    /// The messages of the fork `session_id` were loaded.
    ForkMessagesLoaded { session_id: String },
    /// Loading the messages of the fork failed.
    ForkMessagesFailed,
    /// The session on show was deleted.
    Deleted,
    /// Deleting failed.
    DeleteFailed,
}

/// What the window does after a reply.
#[derive(Debug, Clone, PartialEq, Eq)]
pub struct ReplyEffects {
    /// Load the session list again.
    pub refresh_sessions: bool,
    /// Empty the chat pane.
    pub clear_messages: bool,
    /// Show the messages just loaded.
    pub show_loaded_messages: bool,
    /// The session the message input posts to from now on.
    pub input_session: Option<String>,
    /// The new text of the title bar.
    pub title: Option<String>,
    /// Show the chat pane (in a collapsed window).
    pub show_content: bool,
    /// A notice to show.
    pub toast: Option<String>,
    /// Load the messages of this session.
    pub load_messages_of: Option<String>,
    /// Show the typed message, the indicator, and post the message.
    pub post_pending_message: bool,
}

/// A [`ReplyEffects`] with its texts as sequences of characters.
pub struct EffectsView {
    pub refresh_sessions: bool,
    pub clear_messages: bool,
    pub show_loaded_messages: bool,
    pub input_session: Option<Seq<char>>,
    pub title: Option<Seq<char>>,
    pub show_content: bool,
    pub toast: Option<Seq<char>>,
    pub load_messages_of: Option<Seq<char>>,
    pub post_pending_message: bool,
}

impl View for ReplyEffects {
    type V = EffectsView;

    open spec fn view(&self) -> EffectsView {
        EffectsView {
            refresh_sessions: self.refresh_sessions,
            clear_messages: self.clear_messages,
            show_loaded_messages: self.show_loaded_messages,
            input_session: opt_view(self.input_session),
            title: opt_view(self.title),
            show_content: self.show_content,
            toast: opt_view(self.toast),
            load_messages_of: opt_view(self.load_messages_of),
            post_pending_message: self.post_pending_message,
        }
    }
}

/// Nothing to do.
pub open spec fn no_effects() -> EffectsView {
    EffectsView {
        refresh_sessions: false,
        clear_messages: false,
        show_loaded_messages: false,
        input_session: None,
        title: None,
        show_content: false,
        toast: None,
        load_messages_of: None,
        post_pending_message: false,
    }
}

/// What the window does after reply `r`. A new session is put on show,
/// emptied, and posted to; one made for a typed message then gets it. A
/// rename retitles the window. A fork is loaded, then shown and posted to
/// (the session on show stays as it was). A deletion empties the chat pane.
/// Each rename, fork and deletion is told in a notice, and so is its
/// failure.
pub open spec fn reply_effects(r: Reply) -> EffectsView {
    match r {
        Reply::SessionCreated { session_id, for_message } => if for_message {
            EffectsView {
                refresh_sessions: true,
                clear_messages: true,
                input_session: Some(session_id@),
                post_pending_message: true,
                ..no_effects()
            }
        } else {
            EffectsView {
                refresh_sessions: true,
                clear_messages: true,
                input_session: Some(session_id@),
                title: Some("New Session - OpenCode"@),
                show_content: true,
                ..no_effects()
            }
        },
        Reply::CreateFailed => no_effects(),
        Reply::Renamed { title } => EffectsView {
            refresh_sessions: true,
            title: Some(title@ + " - OpenCode"@),
            toast: Some("Session renamed"@),
            ..no_effects()
        },
        Reply::RenameFailed => EffectsView { toast: Some("Failed to rename session"@), ..no_effects() },
        Reply::Forked { session_id } => EffectsView {
            refresh_sessions: true,
            load_messages_of: Some(session_id@),
            ..no_effects()
        },
        Reply::ForkFailed => EffectsView { toast: Some("Failed to fork session"@), ..no_effects() },
        Reply::ForkMessagesLoaded { session_id } => EffectsView {
            show_loaded_messages: true,
            input_session: Some(session_id@),
            toast: Some("Session forked"@),
            show_content: true,
            ..no_effects()
        },
        Reply::ForkMessagesFailed => EffectsView {
            toast: Some("Failed to load forked session"@),
            ..no_effects()
        },
        Reply::Deleted => EffectsView {
            refresh_sessions: true,
            clear_messages: true,
            toast: Some("Session deleted"@),
            ..no_effects()
        },
        Reply::DeleteFailed => EffectsView { toast: Some("Failed to delete session"@), ..no_effects() },
    }
}

/// A failed request changes nothing: the session list, the chat pane, the
/// session posted to and the title stay as they were. A failed rename,
/// fork or deletion is told in a notice; a failed creation is not.
pub proof fn lemma_failures_only_notify(r: Reply)
    requires
        r is CreateFailed || r is RenameFailed || r is ForkFailed || r is ForkMessagesFailed
            || r is DeleteFailed,
    ensures
        !reply_effects(r).refresh_sessions,
        !reply_effects(r).clear_messages,
        !reply_effects(r).show_loaded_messages,
        reply_effects(r).input_session is None,
        reply_effects(r).title is None,
        !reply_effects(r).show_content,
        reply_effects(r).load_messages_of is None,
        !reply_effects(r).post_pending_message,
        r is CreateFailed <==> reply_effects(r).toast is None,
{
}

fn nothing() -> (e: ReplyEffects)
    ensures
        e@ == no_effects(),
{
    ReplyEffects {
        refresh_sessions: false,
        clear_messages: false,
        show_loaded_messages: false,
        input_session: None,
        title: None,
        show_content: false,
        toast: None,
        load_messages_of: None,
        post_pending_message: false,
    }
}

fn notice(text: &str) -> (e: ReplyEffects)
    ensures
        e@ == (EffectsView { toast: Some(text@), ..no_effects() }),
{
    ReplyEffects { toast: Some(String::from_str(text)), ..nothing() }
}

impl Window {
    /// Takes a reply to a session request: a created session is put on
    /// show; gives what the window does next.
    pub fn on_reply(&mut self, reply: Reply) -> (e: ReplyEffects)
        ensures
            e@ == reply_effects(reply),
            match reply {
                Reply::SessionCreated { session_id, .. } => final(self).current_session_id == Some(
                    session_id,
                ),
                _ => final(self).current_session_id == old(self).current_session_id,
            },
    {
        match reply {
            Reply::SessionCreated { session_id, for_message } => {
                let input_session = Some(session_id.clone());
                self.current_session_id = Some(session_id);
                if for_message {
                    ReplyEffects {
                        refresh_sessions: true,
                        clear_messages: true,
                        input_session,
                        post_pending_message: true,
                        ..nothing()
                    }
                } else {
                    proof {
                        reveal_strlit("New Session");
                        reveal_strlit(" - OpenCode");
                        reveal_strlit("New Session - OpenCode");
                        assert("New Session"@ + " - OpenCode"@ =~= "New Session - OpenCode"@);
                    }
                    ReplyEffects {
                        refresh_sessions: true,
                        clear_messages: true,
                        input_session,
                        title: Some(Self::title_for(Some("New Session"))),
                        show_content: true,
                        ..nothing()
                    }
                }
            },
            Reply::CreateFailed => nothing(),
            Reply::Renamed { title } => ReplyEffects {
                refresh_sessions: true,
                title: Some(Self::title_for(Some(title.as_str()))),
                toast: Some(String::from_str("Session renamed")),
                ..nothing()
            },
            Reply::RenameFailed => notice("Failed to rename session"),
            Reply::Forked { session_id } => ReplyEffects {
                refresh_sessions: true,
                load_messages_of: Some(session_id),
                ..nothing()
            },
            Reply::ForkFailed => notice("Failed to fork session"),
            Reply::ForkMessagesLoaded { session_id } => ReplyEffects {
                show_loaded_messages: true,
                input_session: Some(session_id),
                toast: Some(String::from_str("Session forked")),
                show_content: true,
                ..nothing()
            },
            Reply::ForkMessagesFailed => notice("Failed to load forked session"),
            Reply::Deleted => ReplyEffects {
                refresh_sessions: true,
                clear_messages: true,
                toast: Some(String::from_str("Session deleted")),
                ..nothing()
            },
            Reply::DeleteFailed => notice("Failed to delete session"),
        }
    }
}

} // verus!
