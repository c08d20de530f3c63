//! The state of the chat pane: the messages on show and whether the
//! "Generating..." indicator is up, and what is shown of each message.
use vstd::prelude::*;
use crate::model::{Message, MessageInfo, MessagePart};
use crate::text::{decimal, push_decimal, str_eq};

verus! {

/// The messages of the chat pane, in order, and whether the indicator that
/// an answer is being generated is on.
pub struct ChatView {
    pub messages: Vec<Message>,
    pub thinking: bool,
}

/// The abstract state of a [`ChatView`].
pub struct ChatState {
    pub messages: Seq<Message>,
    pub thinking: bool,
}

impl View for ChatView {
    type V = ChatState;

    open spec fn view(&self) -> ChatState {
        ChatState { messages: self.messages@, thinking: self.thinking }
    }
}

/// The message that stands for the indicator while an answer is generated.
pub open spec fn is_thinking_placeholder(m: Message) -> bool {
    &&& m.info.id@ == "thinking"@
    &&& m.info.session_id is None
    &&& m.info.role@ == "thinking"@
    &&& m.info.cost is None
    &&& m.info.tokens is None
    &&& m.info.model_id is None
    &&& m.info.provider_id is None
    &&& m.info.mode is None
    &&& m.info.path is None
    &&& m.parts@.len() == 1
    &&& m.parts@[0].text matches Some(t) && t@ == "Generating..."@
    &&& m.parts@[0].part_type@ == "thinking"@
    &&& m.parts@[0].tool is None
    &&& m.parts@[0].state is None
}

/// The state after the indicator is shown by appending `m`: nothing
/// changes while it is already on.
pub open spec fn shown(s: ChatState, m: Message) -> ChatState {
    if s.thinking {
        s
    } else {
        ChatState { messages: s.messages.push(m), thinking: true }
    }
}

/// Whether the last message on show is an indicator.
pub open spec fn ends_in_thinking(ms: Seq<Message>) -> bool {
    ms.len() > 0 && ms.last().info.role@ == "thinking"@
}

/// The state after the indicator is hidden: while it is on, a last message
/// in the role "thinking" is taken away; the indicator is off afterwards.
pub open spec fn hidden(s: ChatState) -> ChatState {
    if s.thinking && ends_in_thinking(s.messages) {
        ChatState { messages: s.messages.drop_last(), thinking: false }
    } else {
        ChatState { messages: s.messages, thinking: false }
    }
}

/// `new` is `old` with `text` appended to the text of its first part, when
/// that part has text; all else is unchanged.
pub open spec fn text_appended(old: Message, new: Message, text: Seq<char>) -> bool {
    &&& new.info == old.info
    &&& new.parts@.len() == old.parts@.len()
    &&& forall|k: int| 1 <= k < old.parts@.len() ==> new.parts@[k] == old.parts@[k]
    &&& old.parts@.len() > 0 ==> {
        &&& new.parts@[0].part_type == old.parts@[0].part_type
        &&& new.parts@[0].tool == old.parts@[0].tool
        &&& new.parts@[0].state == old.parts@[0].state
        &&& match old.parts@[0].text {
            None => new.parts@[0].text is None,
            Some(t) => new.parts@[0].text matches Some(u) && u@ == t@ + text,
        }
    }
}

/// `i` is the first index of a message whose id is `id`.
pub open spec fn first_with_id(ms: Seq<Message>, id: Seq<char>, i: int) -> bool {
    &&& 0 <= i < ms.len()
    &&& ms[i].info.id@ == id
    &&& forall|j: int| 0 <= j < i ==> ms[j].info.id@ != id
}

fn string_from(s: &str) -> (r: String)
    ensures
        r@ == s@,
{
    String::from_str(s)
}

/// The indicator message.
pub fn thinking_message() -> (m: Message)
    ensures
        is_thinking_placeholder(m),
{
    let part = MessagePart {
        text: Some(string_from("Generating...")),
        part_type: string_from("thinking"),
        tool: None,
        state: None,
    };
    let mut parts: Vec<MessagePart> = Vec::new();
    parts.push(part);
    Message {
        info: MessageInfo {
            id: string_from("thinking"),
            session_id: None,
            role: string_from("thinking"),
            cost: None,
            tokens: None,
            model_id: None,
            provider_id: None,
            mode: None,
            path: None,
        },
        parts,
    }
}

impl ChatView {
    /// An empty chat pane with the indicator off.
    pub fn new() -> (v: ChatView)
        ensures
            v@.messages.len() == 0,
            !v@.thinking,
    {
        ChatView { messages: Vec::new(), thinking: false }
    }

    /// Replaces the messages on show; the indicator flag stays as it was.
    pub fn set_messages(&mut self, messages: Vec<Message>)
        ensures
            final(self)@ == (ChatState { messages: messages@, thinking: old(self)@.thinking }),
    {
        self.messages = messages;
    }

    /// Appends a message.
    pub fn add_message(&mut self, message: Message)
        ensures
            final(self)@ == (ChatState {
                messages: old(self)@.messages.push(message),
                thinking: old(self)@.thinking,
            }),
    {
        self.messages.push(message);
    }

    /// Appends `text` to the text of the first part of the first message
    /// whose id is `message_id`, and gives its index; `None` when no
    /// message has that id.
    pub fn update_message(&mut self, message_id: &str, text: &str) -> (r: Option<usize>)
        ensures
            final(self)@.thinking == old(self)@.thinking,
            final(self)@.messages.len() == old(self)@.messages.len(),
            match r {
                None => {
                    &&& final(self)@ == old(self)@
                    &&& forall|j: int|
                        0 <= j < old(self)@.messages.len() ==> (#[trigger] old(
                            self,
                        )@.messages[j]).info.id@ != message_id@
                },
                Some(i) => {
                    &&& first_with_id(old(self)@.messages, message_id@, i as int)
                    &&& forall|j: int|
                        0 <= j < old(self)@.messages.len() && j != i ==> final(self)@.messages[j]
                            == old(self)@.messages[j]
                    &&& text_appended(
                        old(self)@.messages[i as int],
                        final(self)@.messages[i as int],
                        text@,
                    )
                },
            },
    {
        let mut i: usize = 0;
        while i < self.messages.len()
            invariant
                self@ == old(self)@,
                i <= self.messages.len(),
                forall|j: int| 0 <= j < i ==> (#[trigger] self.messages@[j]).info.id@ != message_id@,
            decreases self.messages.len() - i,
        {
            if str_eq(self.messages[i].info.id.as_str(), message_id) {
                let ghost before = self.messages@;
                let mut msg = self.messages.remove(i);
                if msg.parts.len() > 0 {
                    let ghost old_parts = msg.parts@;
                    let mut part = msg.parts.remove(0);
                    part.text = match part.text {
                        Some(t) => {
                            let mut t = t;
                            t.append(text);
                            Some(t)
                        },
                        None => None,
                    };
                    msg.parts.insert(0, part);
                    assert forall|k: int| 1 <= k < old_parts.len() implies msg.parts@[k]
                        == old_parts[k] by {}
                }
                self.messages.insert(i, msg);
                assert forall|j: int|
                    0 <= j < before.len() && j != i implies self.messages@[j] == before[j] by {}
                return Some(i);
            }
            i = i + 1;
        }
        None
    }

    /// Shows the indicator by appending the indicator message; gives
    /// whether it was appended (it is not while the indicator is on).
    pub fn show_thinking(&mut self) -> (appended: bool)
        ensures
            appended == !old(self)@.thinking,
            old(self)@.thinking ==> final(self)@ == old(self)@,
            !old(self)@.thinking ==> {
                &&& is_thinking_placeholder(final(self)@.messages.last())
                &&& final(self)@ == shown(old(self)@, final(self)@.messages.last())
            },
    {
        if self.thinking {
            return false;
        }
        let m = thinking_message();
        self.messages.push(m);
        self.thinking = true;
        true
    }

    /// Hides the indicator; gives the index of the message taken away, if
    /// one was.
    pub fn hide_thinking(&mut self) -> (removed: Option<usize>)
        ensures
            final(self)@ == hidden(old(self)@),
            match removed {
                Some(i) => old(self)@.thinking && ends_in_thinking(old(self)@.messages) && i
                    == old(self)@.messages.len() - 1,
                None => !(old(self)@.thinking && ends_in_thinking(old(self)@.messages)),
            },
    {
        let mut removed: Option<usize> = None;
        if self.thinking {
            let n: usize = self.messages.len();
            if n > 0 && str_eq(self.messages[n - 1].info.role.as_str(), "thinking") {
                self.messages.pop();
                removed = Some(n - 1);
            }
            self.thinking = false;
        }
        removed
    }
}

/// Hiding the indicator right after showing it gives back the state before,
/// when the indicator was off.
pub proof fn lemma_hide_undoes_show(s: ChatState, m: Message)
    requires
        !s.thinking,
        is_thinking_placeholder(m),
    ensures
        hidden(shown(s, m)) == s,
{
    assert(s.messages.push(m).drop_last() == s.messages);
}

/// Hiding the indicator turns it off and takes away at most one message:
/// the last one, only while the indicator is on and only when that message
/// is in the role "thinking". Every other message stays, in order.
pub proof fn lemma_hide_takes_only_the_indicator(s: ChatState)
    ensures
        !hidden(s).thinking,
        !s.thinking ==> hidden(s).messages == s.messages,
        s.thinking && s.messages.len() > 0 && s.messages.last().info.role@ == "thinking"@
            ==> hidden(s).messages == s.messages.drop_last(),
        !(s.messages.len() > 0 && s.messages.last().info.role@ == "thinking"@) ==> hidden(
            s,
        ).messages == s.messages,
{
}

/// Showing the indicator twice is showing it once.
pub proof fn lemma_show_idempotent(s: ChatState, m1: Message, m2: Message)
    ensures
        shown(shown(s, m1), m2) == shown(s, m1),
{
}

/// Hiding the indicator twice is hiding it once.
pub proof fn lemma_hide_idempotent(s: ChatState)
    ensures
        hidden(hidden(s)) == hidden(s),
{
}

} // verus!

verus! {

/// How a message is drawn, chosen by its role.
#[derive(Debug, Clone, Copy, PartialEq, Eq)]
pub enum MessageKind {
    /// The "Generating..." indicator.
    Thinking,
    /// A message the user wrote, drawn as a card.
    User,
    /// An answer, drawn as Markdown with its tool calls and actions.
    Assistant,
    /// Anything else, which is not drawn.
    Hidden,
}

/// The kind of a message with role `role`.
pub open spec fn kind_of_role(role: Seq<char>) -> MessageKind {
    if role == "thinking"@ {
        MessageKind::Thinking
    } else if role == "user"@ {
        MessageKind::User
    } else if role == "assistant"@ {
        MessageKind::Assistant
    } else {
        MessageKind::Hidden
    }
}

/// The text of a part, empty when it has none.
pub open spec fn part_text(p: MessagePart) -> Seq<char> {
    match p.text {
        Some(t) => t@,
        None => Seq::empty(),
    }
}

/// The texts of all parts, joined with nothing between them.
pub open spec fn all_text(parts: Seq<MessagePart>) -> Seq<char>
    decreases parts.len(),
{
    if parts.len() == 0 {
        Seq::empty()
    } else {
        all_text(parts.drop_last()) + part_text(parts.last())
    }
}

/// The texts of the parts of type "text", joined with nothing between them.
pub open spec fn text_parts_text(parts: Seq<MessagePart>) -> Seq<char>
    decreases parts.len(),
{
    if parts.len() == 0 {
        Seq::empty()
    } else {
        text_parts_text(parts.drop_last()) + if parts.last().part_type@ == "text"@ {
            part_text(parts.last())
        } else {
            Seq::empty()
        }
    }
}

/// The text of each part, in order.
pub open spec fn texts_of(parts: Seq<MessagePart>) -> Seq<Seq<char>> {
    parts.map_values(|p: MessagePart| part_text(p))
}

/// The parts whose type is "text", kept in order: the parts filtered by
/// their type.
pub open spec fn parts_of_type_text(parts: Seq<MessagePart>) -> Seq<MessagePart> {
    parts.filter(|p: MessagePart| p.part_type@ == "text"@)
}

/// A user's message shows the texts of all its parts, one after the other;
/// an answer's Markdown is made of the texts of its parts of type "text"
/// alone, one after the other, so a part of any other type adds nothing to
/// it.
pub proof fn lemma_joined_texts(parts: Seq<MessagePart>)
    ensures
        all_text(parts) == texts_of(parts).flatten(),
        text_parts_text(parts) == all_text(parts_of_type_text(parts)),
        text_parts_text(parts) == texts_of(parts_of_type_text(parts)).flatten(),
    decreases parts.len(),
{
    let pred = |p: MessagePart| p.part_type@ == "text"@;
    reveal(Seq::filter);
    if parts.len() == 0 {
        assert(parts.filter(pred) == Seq::<MessagePart>::empty());
    } else {
        let rest = parts.drop_last();
        lemma_joined_texts(rest);
        assert(rest.filter(pred) == parts_of_type_text(rest));
        if pred(parts.last()) {
            let f = parts_of_type_text(parts);
            assert(f == parts_of_type_text(rest).push(parts.last()));
            assert(f.drop_last() == parts_of_type_text(rest));
            assert(f.last() == parts.last());
        } else {
            assert(parts_of_type_text(parts) == parts_of_type_text(rest));
            assert(text_parts_text(rest) + Seq::<char>::empty() == text_parts_text(rest));
        }
    }
    lemma_all_text_flatten(parts);
    lemma_all_text_flatten(parts_of_type_text(parts));
}

proof fn lemma_all_text_flatten(parts: Seq<MessagePart>)
    ensures
        all_text(parts) == texts_of(parts).flatten(),
    decreases parts.len(),
{
    if parts.len() == 0 {
        assert(texts_of(parts) == Seq::<Seq<char>>::empty());
    } else {
        let rest = parts.drop_last();
        lemma_all_text_flatten(rest);
        assert(texts_of(parts) == texts_of(rest).push(part_text(parts.last())));
        texts_of(rest).lemma_flatten_push(part_text(parts.last()));
    }
}

/// The parts of type "tool", in order.
pub open spec fn tool_parts(parts: Seq<MessagePart>) -> Seq<MessagePart>
    decreases parts.len(),
{
    if parts.len() == 0 {
        Seq::empty()
    } else if parts.last().part_type@ == "tool"@ {
        tool_parts(parts.drop_last()).push(parts.last())
    } else {
        tool_parts(parts.drop_last())
    }
}

/// The parts whose type is "tool", kept in order: the parts filtered by
/// their type.
pub open spec fn parts_of_type_tool(parts: Seq<MessagePart>) -> Seq<MessagePart> {
    parts.filter(|p: MessagePart| p.part_type@ == "tool"@)
}

/// The parts that get a card are exactly the parts of type "tool", in
/// order: every one of them is of type "tool", every part of type "tool" is
/// among them, and a message without a part of type "tool" has none.
pub proof fn lemma_tool_parts_exact(parts: Seq<MessagePart>)
    ensures
        tool_parts(parts) == parts_of_type_tool(parts),
        forall|j: int|
            0 <= j < tool_parts(parts).len() ==> (#[trigger] tool_parts(parts)[j]).part_type@
                == "tool"@,
        forall|k: int|
            0 <= k < parts.len() && (#[trigger] parts[k]).part_type@ == "tool"@ ==> tool_parts(
                parts,
            ).contains(parts[k]),
        (forall|k: int| 0 <= k < parts.len() ==> (#[trigger] parts[k]).part_type@ != "tool"@)
            ==> tool_parts(parts).len() == 0,
    decreases parts.len(),
{
    let pred = |p: MessagePart| p.part_type@ == "tool"@;
    reveal(Seq::filter);
    if parts.len() == 0 {
        assert(parts == Seq::<MessagePart>::empty());
    } else {
        lemma_tool_parts_exact(parts.drop_last());
        assert(parts.drop_last().filter(pred) == parts_of_type_tool(parts.drop_last()));
    }
    broadcast use Seq::lemma_filter_pred, Seq::lemma_filter_contains;
    assert forall|j: int| 0 <= j < tool_parts(parts).len() implies (#[trigger] tool_parts(
        parts,
    )[j]).part_type@ == "tool"@ by {
        assert(pred(parts.filter(pred)[j]));
    }
    assert forall|k: int| 0 <= k < parts.len() && (#[trigger] parts[k]).part_type@ == "tool"@ implies tool_parts(
        parts,
    ).contains(parts[k]) by {
        assert(pred(parts[k]));
        assert(parts.filter(pred).contains(parts[k]));
    }
    if forall|k: int| 0 <= k < parts.len() ==> (#[trigger] parts[k]).part_type@ != "tool"@ {
        if tool_parts(parts).len() > 0 {
            let j: int = 0;
            assert(pred(parts.filter(pred)[j]));
            assert(parts.filter(pred).contains(parts.filter(pred)[j]));
            Seq::lemma_filter_contains_rev(parts, pred, parts.filter(pred)[j]);
        }
    }
}

/// What a tool call shows: a header naming the tool, its title and output.
#[derive(Debug, Clone, PartialEq, Eq)]
pub struct ToolCard {
    pub header: Option<String>,
    pub title: Option<String>,
    pub output: Option<String>,
}

/// The two options hold the same text, or are both empty.
pub open spec fn same_text(a: Option<String>, b: Option<String>) -> bool {
    match (a, b) {
        (Some(x), Some(y)) => x@ == y@,
        (None, None) => true,
        _ => false,
    }
}

/// `card` is what part `p` shows: "🔧 " and the tool's name as header when
/// it names one, and the title and output of its state.
pub open spec fn card_of(p: MessagePart, card: ToolCard) -> bool {
    &&& match p.tool {
        Some(t) => card.header matches Some(h) && h@ == "\u{1f527} "@ + t@,
        None => card.header is None,
    }
    &&& match p.state {
        Some(st) => same_text(card.title, st.title) && same_text(card.output, st.output),
        None => card.title is None && card.output is None,
    }
}

/// `prefix`, the text and a line break, when there is a text.
pub open spec fn opt_line(prefix: Seq<char>, o: Option<String>) -> Seq<char> {
    match o {
        Some(t) => prefix + t@ + "\n"@,
        None => Seq::empty(),
    }
}

/// The source of one part as the source dialog shows it.
pub open spec fn part_source(p: MessagePart) -> Seq<char> {
    if p.part_type@ == "text"@ {
        part_text(p)
    } else if p.part_type@ == "tool"@ {
        "[Tool Call]\n"@ + opt_line("Tool: "@, p.tool) + match p.state {
            Some(st) => opt_line("Title: "@, st.title) + opt_line("Output: "@, st.output),
            None => Seq::empty(),
        }
    } else {
        "["@ + p.part_type@ + "]\n"@ + part_text(p)
    }
}

/// The sources of all parts, separated by a rule.
pub open spec fn source_of(parts: Seq<MessagePart>) -> Seq<char>
    decreases parts.len(),
{
    if parts.len() == 0 {
        Seq::empty()
    } else if parts.len() == 1 {
        part_source(parts[0])
    } else {
        source_of(parts.drop_last()) + "\n---\n\n"@ + part_source(parts.last())
    }
}

/// The source of each part, each after a rule.
pub open spec fn ruled_sources(parts: Seq<MessagePart>) -> Seq<Seq<char>> {
    parts.map_values(|p: MessagePart| "\n---\n\n"@ + part_source(p))
}

/// The source dialog shows the source of the first part, then the source of
/// each further part after a rule: a rule stands only between two parts,
/// never before the first or after the last, and a message without parts
/// shows nothing.
pub proof fn lemma_source_joined_by_rules(parts: Seq<MessagePart>)
    ensures
        parts.len() == 0 ==> source_of(parts) == Seq::<char>::empty(),
        parts.len() > 0 ==> source_of(parts) == part_source(parts[0]) + ruled_sources(
            parts.skip(1),
        ).flatten(),
    decreases parts.len(),
{
    if parts.len() == 1 {
        assert(parts.skip(1) == Seq::<MessagePart>::empty());
        assert(ruled_sources(parts.skip(1)) == Seq::<Seq<char>>::empty());
        assert(part_source(parts[0]) + Seq::<char>::empty() == part_source(parts[0]));
    } else if parts.len() > 1 {
        let rest = parts.drop_last();
        let last = parts.last();
        lemma_source_joined_by_rules(rest);
        assert(parts.skip(1) == rest.skip(1).push(last));
        assert(ruled_sources(parts.skip(1)) == ruled_sources(rest.skip(1)).push(
            "\n---\n\n"@ + part_source(last),
        ));
        ruled_sources(rest.skip(1)).lemma_flatten_push("\n---\n\n"@ + part_source(last));
        assert(rest[0] == parts[0]);
        let head = part_source(parts[0]);
        let tail = ruled_sources(rest.skip(1)).flatten();
        assert(head + tail + "\n---\n\n"@ + part_source(last) == head + (tail + (
        "\n---\n\n"@ + part_source(last))));
    }
}

fn append_opt(out: &mut String, o: &Option<String>)
    ensures
        final(out)@ == old(out)@ + match o {
            Some(t) => t@,
            None => Seq::<char>::empty(),
        },
{
    match o {
        Some(t) => out.append(t.as_str()),
        None => {
            assert(old(out)@ + Seq::<char>::empty() == old(out)@);
        },
    }
}

fn append_opt_line(out: &mut String, prefix: &str, o: &Option<String>)
    ensures
        final(out)@ == old(out)@ + opt_line(prefix@, *o),
{
    match o {
        Some(t) => {
            out.append(prefix);
            out.append(t.as_str());
            out.append("\n");
        },
        None => {
            assert(old(out)@ + Seq::<char>::empty() == old(out)@);
        },
    }
}

fn clone_opt(o: &Option<String>) -> (r: Option<String>)
    ensures
        same_text(r, *o),
{
    match o {
        Some(t) => Some(t.clone()),
        None => None,
    }
}

fn append_part_source(out: &mut String, p: &MessagePart)
    ensures
        final(out)@ == old(out)@ + part_source(*p),
{
    if str_eq(p.part_type.as_str(), "text") {
        append_opt(out, &p.text);
    } else if str_eq(p.part_type.as_str(), "tool") {
        let ghost o = out@;
        out.append("[Tool Call]\n");
        append_opt_line(out, "Tool: ", &p.tool);
        match &p.state {
            Some(st) => {
                append_opt_line(out, "Title: ", &st.title);
                append_opt_line(out, "Output: ", &st.output);
            },
            None => {},
        }
        assert(out@ =~= o + part_source(*p));
    } else {
        let ghost o = out@;
        out.append("[");
        out.append(p.part_type.as_str());
        out.append("]\n");
        append_opt(out, &p.text);
        assert(out@ =~= o + part_source(*p));
    }
}

impl ChatView {
    /// How a message with this role is drawn.
    pub fn kind_of(role: &str) -> (k: MessageKind)
        ensures
            k == kind_of_role(role@),
    {
        if str_eq(role, "thinking") {
            MessageKind::Thinking
        } else if str_eq(role, "user") {
            MessageKind::User
        } else if str_eq(role, "assistant") {
            MessageKind::Assistant
        } else {
            MessageKind::Hidden
        }
    }

    /// The text of a user's message card: the texts of all its parts.
    pub fn user_text(message: &Message) -> (t: String)
        ensures
            t@ == all_text(message.parts@),
            t@ == texts_of(message.parts@).flatten(),
    {
        proof {
            lemma_joined_texts(message.parts@);
        }
        let mut out = String::new();
        let parts = &message.parts;
        for i in 0..parts.len()
            invariant
                out@ == all_text(parts@.take(i as int)),
        {
            assert(parts@.take(i + 1).drop_last() == parts@.take(i as int));
            append_opt(&mut out, &parts[i].text);
        }
        assert(parts@.take(parts@.len() as int) == parts@);
        out
    }

    /// The Markdown text of an answer: the texts of its parts of type "text".
    pub fn assistant_text(message: &Message) -> (t: String)
        ensures
            t@ == text_parts_text(message.parts@),
            t@ == texts_of(parts_of_type_text(message.parts@)).flatten(),
    {
        proof {
            lemma_joined_texts(message.parts@);
        }
        let mut out = String::new();
        let parts = &message.parts;
        for i in 0..parts.len()
            invariant
                out@ == text_parts_text(parts@.take(i as int)),
        {
            assert(parts@.take(i + 1).drop_last() == parts@.take(i as int));
            if str_eq(parts[i].part_type.as_str(), "text") {
                append_opt(&mut out, &parts[i].text);
            } else {
                assert(out@ + Seq::<char>::empty() == out@);
            }
        }
        assert(parts@.take(parts@.len() as int) == parts@);
        out
    }

    /// The cards of the tool calls of an answer, one per part of type "tool",
    /// in order; no other part gets a card.
    pub fn tool_cards(message: &Message) -> (cards: Vec<ToolCard>)
        ensures
            cards@.len() == tool_parts(message.parts@).len(),
            forall|k: int|
                0 <= k < cards@.len() ==> card_of(tool_parts(message.parts@)[k], #[trigger] cards@[k]),
            cards@.len() == parts_of_type_tool(message.parts@).len(),
            forall|k: int|
                0 <= k < cards@.len() ==> card_of(
                    parts_of_type_tool(message.parts@)[k],
                    #[trigger] cards@[k],
                ) && parts_of_type_tool(message.parts@)[k].part_type@ == "tool"@,
            (forall|k: int|
                0 <= k < message.parts@.len() ==> (#[trigger] message.parts@[k]).part_type@
                    != "tool"@) ==> cards@.len() == 0,
    {
        let mut cards: Vec<ToolCard> = Vec::new();
        let parts = &message.parts;
        for i in 0..parts.len()
            invariant
                cards@.len() == tool_parts(parts@.take(i as int)).len(),
                forall|k: int|
                    0 <= k < cards@.len() ==> card_of(
                        tool_parts(parts@.take(i as int))[k],
                        #[trigger] cards@[k],
                    ),
        {
            assert(parts@.take(i + 1).drop_last() == parts@.take(i as int));
            let ghost prev = tool_parts(parts@.take(i as int));
            let ghost prev_cards = cards@;
            let p = &parts[i];
            assert(parts@.take(i + 1).last() == *p);
            if str_eq(p.part_type.as_str(), "tool") {
                let header = match &p.tool {
                    Some(t) => {
                        let mut h = String::from_str("\u{1f527} ");
                        h.append(t.as_str());
                        Some(h)
                    },
                    None => None,
                };
                let (title, output) = match &p.state {
                    Some(st) => (clone_opt(&st.title), clone_opt(&st.output)),
                    None => (None, None),
                };
                let card = ToolCard { header, title, output };
                assert(card_of(*p, card));
                cards.push(card);
                assert(tool_parts(parts@.take(i + 1)) == prev.push(*p));
                assert forall|k: int| 0 <= k < cards@.len() implies card_of(
                    tool_parts(parts@.take(i + 1))[k],
                    #[trigger] cards@[k],
                ) by {
                    if k < prev.len() {
                        assert(tool_parts(parts@.take(i + 1))[k] == prev[k]);
                        assert(cards@[k] == prev_cards[k]);
                    } else {
                        assert(k == prev.len());
                        assert(tool_parts(parts@.take(i + 1))[k] == *p);
                        assert(cards@[k] == card);
                    }
                }
            } else {
                assert(tool_parts(parts@.take(i + 1)) == prev);
            }
        }
        assert(parts@.take(parts@.len() as int) == parts@);
        proof {
            lemma_tool_parts_exact(parts@);
        }
        cards
    }

    /// The text of the source dialog: the source of each part, separated
    /// by a rule.
    pub fn source_text(message: &Message) -> (t: String)
        ensures
            t@ == source_of(message.parts@),
            message.parts@.len() == 0 ==> t@ == Seq::<char>::empty(),
            message.parts@.len() > 0 ==> t@ == part_source(message.parts@[0]) + ruled_sources(
                message.parts@.skip(1),
            ).flatten(),
    {
        proof {
            lemma_source_joined_by_rules(message.parts@);
        }
        let mut out = String::new();
        let parts = &message.parts;
        for i in 0..parts.len()
            invariant
                out@ == source_of(parts@.take(i as int)),
        {
            assert(parts@.take(i + 1).drop_last() == parts@.take(i as int));
            if i > 0 {
                out.append("\n---\n\n");
            } else {
                assert(parts@.take(1)[0] == parts@[0]);
            }
            append_part_source(&mut out, &parts[i]);
        }
        assert(parts@.take(parts@.len() as int) == parts@);
        out
    }
}

} // verus!

verus! {

/// How a line of the message-info sidebar is styled.
#[derive(Debug, Clone, Copy, PartialEq, Eq)]
pub enum InfoRowKind {
    /// A field name ("Message ID", "Session ID").
    Heading,
    /// A selectable value with a copy button.
    CopyableValue,
    /// A section title set off from what precedes it.
    Section,
    /// A section title set directly under what precedes it.
    TightSection,
    /// A selectable value on one line.
    Value,
    /// A selectable value that wraps.
    WrappedValue,
}

/// A line of the message-info sidebar.
#[derive(Debug, Clone, PartialEq, Eq)]
pub struct InfoRow {
    pub kind: InfoRowKind,
    pub text: String,
}

/// The kinds and texts of `rows`.
pub open spec fn rows_view(rows: Seq<InfoRow>) -> Seq<(InfoRowKind, Seq<char>)> {
    rows.map_values(|r: InfoRow| (r.kind, r.text@))
}

/// A row of `kind` with `prefix` and the text, when there is a text.
pub open spec fn opt_row(kind: InfoRowKind, prefix: Seq<char>, o: Option<String>) -> Seq<
    (InfoRowKind, Seq<char>),
> {
    match o {
        Some(t) => seq![(kind, prefix + t@)],
        None => Seq::empty(),
    }
}

/// The rows naming the message and its session.
pub open spec fn id_rows(info: MessageInfo) -> Seq<(InfoRowKind, Seq<char>)> {
    seq![(InfoRowKind::Heading, "Message ID"@), (InfoRowKind::CopyableValue, info.id@)]
        + match info.session_id {
        Some(sid) => seq![(InfoRowKind::Heading, "Session ID"@), (InfoRowKind::CopyableValue, sid@)],
        None => Seq::empty(),
    }
}

/// The "Model" section, present when provider, model or mode is known.
pub open spec fn model_rows(info: MessageInfo) -> Seq<(InfoRowKind, Seq<char>)> {
    if info.provider_id is Some || info.model_id is Some || info.mode is Some {
        seq![(InfoRowKind::Section, "Model"@)] + opt_row(
            InfoRowKind::Value,
            "Provider: "@,
            info.provider_id,
        ) + opt_row(InfoRowKind::WrappedValue, "Model: "@, info.model_id) + opt_row(
            InfoRowKind::Value,
            "Mode: "@,
            info.mode,
        )
    } else {
        Seq::empty()
    }
}

/// The "Path" section, present when the path is known.
pub open spec fn path_rows(info: MessageInfo) -> Seq<(InfoRowKind, Seq<char>)> {
    match info.path {
        Some(p) => seq![
            (InfoRowKind::Section, "Path"@),
            (InfoRowKind::WrappedValue, "CWD: "@ + p.cwd@),
            (InfoRowKind::WrappedValue, "Root: "@ + p.root@),
        ],
        None => Seq::empty(),
    }
}

/// The "Usage" section: the cost, then the token counts; reasoning tokens
/// only when there were any, and the total of input and output.
pub open spec fn usage_rows(info: MessageInfo, cost_text: Option<String>) -> Seq<
    (InfoRowKind, Seq<char>),
> {
    if info.tokens is Some || info.cost is Some {
        seq![(InfoRowKind::TightSection, "Usage"@)] + opt_row(
            InfoRowKind::Value,
            "Cost: $"@,
            cost_text,
        ) + match info.tokens {
            Some(t) => seq![
                (InfoRowKind::Value, "Input: "@ + decimal(t.input as nat)),
                (InfoRowKind::Value, "Output: "@ + decimal(t.output as nat)),
            ] + (if t.reasoning > 0 {
                seq![(InfoRowKind::Value, "Reasoning: "@ + decimal(t.reasoning as nat))]
            } else {
                Seq::empty()
            }) + seq![
                (InfoRowKind::Value, "Cache Read: "@ + decimal(t.cache.read as nat)),
                (InfoRowKind::Value, "Cache Write: "@ + decimal(t.cache.write as nat)),
                (InfoRowKind::Value, "Total: "@ + decimal((t.input + t.output) as nat)),
            ],
            None => Seq::empty(),
        }
    } else {
        Seq::empty()
    }
}

/// The rows of the message-info sidebar, below its title.
pub open spec fn info_rows_of(info: MessageInfo, cost_text: Option<String>) -> Seq<
    (InfoRowKind, Seq<char>),
> {
    id_rows(info) + model_rows(info) + path_rows(info) + usage_rows(info, cost_text)
}

fn push_row(rows: &mut Vec<InfoRow>, kind: InfoRowKind, prefix: &str, value: &str)
    ensures
        rows_view(final(rows)@) == rows_view(old(rows)@).push((kind, prefix@ + value@)),
{
    let mut text = String::from_str(prefix);
    text.append(value);
    rows.push(InfoRow { kind, text });
    assert(rows_view(rows@) =~= rows_view(old(rows)@).push((kind, prefix@ + value@)));
}

fn push_label(rows: &mut Vec<InfoRow>, kind: InfoRowKind, text: &str)
    ensures
        rows_view(final(rows)@) == rows_view(old(rows)@).push((kind, text@)),
{
    rows.push(InfoRow { kind, text: String::from_str(text) });
    assert(rows_view(rows@) =~= rows_view(old(rows)@).push((kind, text@)));
}

fn push_number_row(rows: &mut Vec<InfoRow>, prefix: &str, n: u64)
    ensures
        rows_view(final(rows)@) == rows_view(old(rows)@).push(
            (InfoRowKind::Value, prefix@ + decimal(n as nat)),
        ),
{
    let mut text = String::from_str(prefix);
    push_decimal(&mut text, n);
    rows.push(InfoRow { kind: InfoRowKind::Value, text });
    assert(rows_view(rows@) =~= rows_view(old(rows)@).push(
        (InfoRowKind::Value, prefix@ + decimal(n as nat)),
    ));
}

fn push_opt_row(rows: &mut Vec<InfoRow>, kind: InfoRowKind, prefix: &str, o: &Option<String>)
    ensures
        rows_view(final(rows)@) == rows_view(old(rows)@) + opt_row(kind, prefix@, *o),
{
    match o {
        Some(t) => push_row(rows, kind, prefix, t.as_str()),
        None => {},
    }
    assert(rows_view(rows@) =~= rows_view(old(rows)@) + opt_row(kind, prefix@, *o));
}

fn push_id_rows(rows: &mut Vec<InfoRow>, info: &MessageInfo)
    ensures
        rows_view(final(rows)@) == rows_view(old(rows)@) + id_rows(*info),
{
    push_label(rows, InfoRowKind::Heading, "Message ID");
    push_label(rows, InfoRowKind::CopyableValue, info.id.as_str());
    match &info.session_id {
        Some(sid) => {
            push_label(rows, InfoRowKind::Heading, "Session ID");
            push_label(rows, InfoRowKind::CopyableValue, sid.as_str());
        },
        None => {},
    }
    assert(rows_view(rows@) =~= rows_view(old(rows)@) + id_rows(*info));
}

fn push_model_rows(rows: &mut Vec<InfoRow>, info: &MessageInfo)
    ensures
        rows_view(final(rows)@) == rows_view(old(rows)@) + model_rows(*info),
{
    if info.provider_id.is_some() || info.model_id.is_some() || info.mode.is_some() {
        push_label(rows, InfoRowKind::Section, "Model");
        push_opt_row(rows, InfoRowKind::Value, "Provider: ", &info.provider_id);
        push_opt_row(rows, InfoRowKind::WrappedValue, "Model: ", &info.model_id);
        push_opt_row(rows, InfoRowKind::Value, "Mode: ", &info.mode);
    }
    assert(rows_view(rows@) =~= rows_view(old(rows)@) + model_rows(*info));
}

fn push_path_rows(rows: &mut Vec<InfoRow>, info: &MessageInfo)
    ensures
        rows_view(final(rows)@) == rows_view(old(rows)@) + path_rows(*info),
{
    match &info.path {
        Some(p) => {
            push_label(rows, InfoRowKind::Section, "Path");
            push_row(rows, InfoRowKind::WrappedValue, "CWD: ", p.cwd.as_str());
            push_row(rows, InfoRowKind::WrappedValue, "Root: ", p.root.as_str());
        },
        None => {},
    }
    assert(rows_view(rows@) =~= rows_view(old(rows)@) + path_rows(*info));
}

fn push_usage_rows(rows: &mut Vec<InfoRow>, info: &MessageInfo, cost_text: &Option<String>)
    ensures
        rows_view(final(rows)@) == rows_view(old(rows)@) + usage_rows(*info, *cost_text),
{
    if info.tokens.is_some() || info.cost.is_some() {
        push_label(rows, InfoRowKind::TightSection, "Usage");
        push_opt_row(rows, InfoRowKind::Value, "Cost: $", cost_text);
        match &info.tokens {
            Some(t) => {
                push_number_row(rows, "Input: ", t.input as u64);
                push_number_row(rows, "Output: ", t.output as u64);
                if t.reasoning > 0 {
                    push_number_row(rows, "Reasoning: ", t.reasoning as u64);
                }
                push_number_row(rows, "Cache Read: ", t.cache.read as u64);
                push_number_row(rows, "Cache Write: ", t.cache.write as u64);
                push_number_row(rows, "Total: ", t.input as u64 + t.output as u64);
            },
            None => {},
        }
    }
    assert(rows_view(rows@) =~= rows_view(old(rows)@) + usage_rows(*info, *cost_text));
}

impl ChatView {
    /// The rows of the message-info sidebar for a message, below its title.
    /// The cost is passed already written out (`cost_text`, six decimals),
    /// present exactly when the message has a cost.
    pub fn info_rows(info: &MessageInfo, cost_text: &Option<String>) -> (rows: Vec<InfoRow>)
        requires
            cost_text.is_some() == info.cost.is_some(),
        ensures
            rows_view(rows@) == info_rows_of(*info, *cost_text),
    {
        let mut rows: Vec<InfoRow> = Vec::new();
        assert(rows_view(rows@) =~= Seq::empty());
        push_id_rows(&mut rows, info);
        push_model_rows(&mut rows, info);
        push_path_rows(&mut rows, info);
        push_usage_rows(&mut rows, info, cost_text);
        assert(rows_view(rows@) =~= info_rows_of(*info, *cost_text));
        rows
    }
}

} // verus!
