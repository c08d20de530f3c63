//! The state of the message input: the text area, the chosen model and
//! agent, and what pressing "Send" does.
use vstd::prelude::*;
use crate::model::{Agent, Config, Message, MessageInfo, MessagePart, ModelInfo, SendMessageRequest};
use crate::text::{blank, is_blank, is_ws, str_eq};

verus! {

/// A model that can be chosen: its provider, the key it is requested by,
/// and its display name.
#[derive(Debug, Clone, PartialEq, Eq)]
pub struct ModelChoice {
    pub provider_id: String,
    pub model_id: String,
    pub name: String,
}

/// The state of the message input.
pub struct MessageInput {
    pub session_id: Option<String>,
    pub models: Vec<ModelChoice>,
    pub selected_model: usize,
    pub agents: Vec<Agent>,
    pub selected_agent: usize,
}

/// The text the text area shows while nothing has been typed.
pub open spec fn placeholder() -> Seq<char> {
    "Type a message..."@
}

/// `choices` lists, provider by provider, each model of each provider:
/// the provider's id, the model's key and the model's name.
pub open spec fn flattened(providers: Seq<crate::model::Provider>) -> Seq<(Seq<char>, Seq<char>, Seq<char>)>
    decreases providers.len(),
{
    if providers.len() == 0 {
        Seq::empty()
    } else {
        flattened(providers.drop_last()) + provider_choices(
            providers.last(),
            providers.last().models@.len() as int,
        )
    }
}

/// The first `n` models of provider `p`: its id, the model's key and name.
pub open spec fn provider_choices(p: crate::model::Provider, n: int) -> Seq<
    (Seq<char>, Seq<char>, Seq<char>),
> {
    p.models@.take(n).map_values(|e: (String, crate::model::Model)| (p.id@, e.0@, e.1.name@))
}

/// The choices of each provider, in the order of the providers.
pub open spec fn choices_by_provider(providers: Seq<crate::model::Provider>) -> Seq<
    Seq<(Seq<char>, Seq<char>, Seq<char>)>,
> {
    providers.map_values(
        |p: crate::model::Provider| provider_choices(p, p.models@.len() as int),
    )
}

/// The model menu lists the choices of the first provider, then those of the
/// second, and so on: the choices of all providers, one provider after the
/// other, each provider's models in their order.
pub proof fn lemma_flattened_in_provider_order(providers: Seq<crate::model::Provider>)
    ensures
        flattened(providers) == choices_by_provider(providers).flatten(),
    decreases providers.len(),
{
    if providers.len() == 0 {
        assert(choices_by_provider(providers) == Seq::<
            Seq<(Seq<char>, Seq<char>, Seq<char>)>,
        >::empty());
    } else {
        let rest = providers.drop_last();
        let last = providers.last();
        lemma_flattened_in_provider_order(rest);
        assert(choices_by_provider(providers) == choices_by_provider(rest).push(
            provider_choices(last, last.models@.len() as int),
        ));
        choices_by_provider(rest).lemma_flatten_push(
            provider_choices(last, last.models@.len() as int),
        );
    }
}

/// The models of a provider, as choices, carry each key at most once.
pub proof fn lemma_provider_keys_distinct(p: crate::model::Provider)
    requires
        p.wf(),
    ensures
        forall|i: int, j: int|
            0 <= i < j < p.models@.len() ==> (#[trigger] provider_choices(p, p.models@.len() as int)[i]).1
                != (#[trigger] provider_choices(p, p.models@.len() as int)[j]).1,
{
    assert(p.models@.take(p.models@.len() as int) == p.models@);
    assert forall|i: int, j: int| 0 <= i < j < p.models@.len() implies (#[trigger] provider_choices(
        p,
        p.models@.len() as int,
    )[i]).1 != (#[trigger] provider_choices(p, p.models@.len() as int)[j]).1 by {
        assert(p.models@[i].0@ != p.models@[j].0@);
    }
}

/// The provider, key and name of each choice.
pub open spec fn choices_view(choices: Seq<ModelChoice>) -> Seq<(Seq<char>, Seq<char>, Seq<char>)> {
    choices.map_values(|c: ModelChoice| (c.provider_id@, c.model_id@, c.name@))
}

/// What pressing "Send" does.
#[derive(Debug, Clone, PartialEq, Eq)]
pub enum SendPlan {
    /// Nothing: the text is empty.
    EmptyText,
    /// Nothing: no model is chosen.
    NoModel,
    /// Nothing: no agent is chosen.
    NoAgent,
    /// Post the text to the current session.
    ToSession {
        session_id: String,
        text: String,
        provider_id: String,
        model_id: String,
        agent: String,
    },
    /// Create a session, then post the text to it.
    NewSession { text: String, provider_id: String, model_id: String, agent: String },
}

/// A key the text area reacts to.
#[derive(Debug, Clone, Copy, PartialEq, Eq)]
pub enum Key {
    Return,
    KeypadEnter,
    Other,
}

/// What a key press in the text area does.
#[derive(Debug, Clone, Copy, PartialEq, Eq)]
pub struct KeyResponse {
    /// The "Send" button is clicked.
    pub send: bool,
    /// The key press goes no further (no line break is typed).
    pub stop: bool,
}

/// The key handling: Enter, on either key, sends when sending is possible
/// and types no line break; with Shift it types a line break, unless Control
/// is held too, in which case Return clicks "Send" at once.
pub open spec fn key_response(key: Key, shift: bool, control: bool, send_enabled: bool) -> KeyResponse {
    if (key == Key::Return || key == Key::KeypadEnter) && !shift {
        KeyResponse { send: send_enabled, stop: true }
    } else if key == Key::Return && control {
        KeyResponse { send: true, stop: true }
    } else {
        KeyResponse { send: false, stop: false }
    }
}

/// The keys in full: Enter, on either key, without Shift sends when sending
/// is possible and types no line break. Shift+Enter types a line break and
/// sends nothing, on either key, unless Control is held with Return, which
/// sends at once. Any other key does nothing here.
pub proof fn lemma_key_table(key: Key, shift: bool, control: bool, send_enabled: bool)
    ensures
        (key == Key::Return || key == Key::KeypadEnter) && !shift ==> key_response(
            key,
            shift,
            control,
            send_enabled,
        ) == (KeyResponse { send: send_enabled, stop: true }),
        (key == Key::Return || key == Key::KeypadEnter) && shift && !control ==> key_response(
            key,
            shift,
            control,
            send_enabled,
        ) == (KeyResponse { send: false, stop: false }),
        key == Key::KeypadEnter && shift ==> key_response(key, shift, control, send_enabled) == (
        KeyResponse { send: false, stop: false }),
        key == Key::Return && shift && control ==> key_response(key, shift, control, send_enabled)
            == (KeyResponse { send: true, stop: true }),
        key == Key::Other ==> key_response(key, shift, control, send_enabled) == (KeyResponse {
            send: false,
            stop: false,
        }),
{
}

fn string_from(s: &str) -> (r: String)
    ensures
        r@ == s@,
{
    String::from_str(s)
}

/// The text area's text after it gets the focus: emptied when it showed the
/// placeholder.
pub open spec fn after_focus_in(text: Seq<char>) -> Seq<char> {
    if text == placeholder() {
        Seq::empty()
    } else {
        text
    }
}

/// The text area's text after it loses the focus: the placeholder when only
/// white space is left.
pub open spec fn after_focus_out(text: Seq<char>) -> Seq<char> {
    if blank(text) {
        placeholder()
    } else {
        text
    }
}

/// Whether `text` is the placeholder.
pub fn is_placeholder(text: &str) -> (b: bool)
    ensures
        b == (text@ == placeholder()),
{
    str_eq(text, "Type a message...")
}

/// Whether the text area is to be emptied when it gets the focus: it shows
/// the placeholder.
pub fn clear_on_focus(text: &str) -> (b: bool)
    ensures
        b == (text@ == placeholder()),
        after_focus_in(text@) == if b {
            Seq::<char>::empty()
        } else {
            text@
        },
{
    is_placeholder(text)
}

/// Whether the placeholder is to be put back when the text area loses the
/// focus: only white space is left in it.
pub fn restore_placeholder(text: &str) -> (b: bool)
    ensures
        b == blank(text@),
        after_focus_out(text@) == if b {
            placeholder()
        } else {
            text@
        },
{
    is_blank(text)
}

/// Whether "Send" can be clicked: there is text other than white space,
/// and it is not the placeholder.
pub fn send_enabled(text: &str) -> (b: bool)
    ensures
        b == !(blank(text@) || text@ == placeholder()),
{
    !(is_blank(text) || is_placeholder(text))
}

/// The least height of the text area for a text of `line_count` lines:
/// eleven pixels a line, up to five lines.
pub fn input_height(line_count: i32) -> (h: i32)
    requires
        11 * line_count >= i32::MIN,
    ensures
        h == 11 * (if line_count < 5 {
            line_count as int
        } else {
            5
        }),
{
    let lines: i32 = if line_count < 5 {
        line_count
    } else {
        5
    };
    lines * 11
}

/// What a key press does, given the modifiers held and whether "Send" can
/// be clicked.
pub fn key_pressed(key: Key, shift: bool, control: bool, send_enabled: bool) -> (r: KeyResponse)
    ensures
        r == key_response(key, shift, control, send_enabled),
        (key == Key::Return || key == Key::KeypadEnter) && !shift ==> r == (KeyResponse {
            send: send_enabled,
            stop: true,
        }),
        (key == Key::Return || key == Key::KeypadEnter) && shift && !control ==> r == (KeyResponse {
            send: false,
            stop: false,
        }),
        key == Key::KeypadEnter && shift ==> r == (KeyResponse { send: false, stop: false }),
        key == Key::Return && shift && control ==> r == (KeyResponse { send: true, stop: true }),
        key == Key::Other ==> r == (KeyResponse { send: false, stop: false }),
{
    proof {
        lemma_key_table(key, shift, control, send_enabled);
    }
    let enter = match key {
        Key::Return => true,
        Key::KeypadEnter => true,
        Key::Other => false,
    };
    let is_return = match key {
        Key::Return => true,
        _ => false,
    };
    if enter && !shift {
        KeyResponse { send: send_enabled, stop: true }
    } else if is_return && control {
        KeyResponse { send: true, stop: true }
    } else {
        KeyResponse { send: false, stop: false }
    }
}

/// `m` is the message that stands for what the user sent, until the
/// server's copy arrives: id "temp-" and `uuid`, in `session_id`, role
/// "user", one text part with `text`.
pub open spec fn is_pending_user_message(
    m: Message,
    session_id: Seq<char>,
    text: Seq<char>,
    uuid: Seq<char>,
) -> bool {
    &&& m.info.id@ == "temp-"@ + uuid
    &&& m.info.session_id matches Some(s) && s@ == session_id
    &&& m.info.role@ == "user"@
    &&& m.info.cost is None
    &&& m.info.tokens is None
    &&& m.info.model_id is None
    &&& m.info.provider_id is None
    &&& m.info.mode is None
    &&& m.info.path is None
    &&& m.parts@.len() == 1
    &&& is_text_part(m.parts@[0], text)
}

/// `p` is a part of type "text" with text `text` and nothing else.
pub open spec fn is_text_part(p: MessagePart, text: Seq<char>) -> bool {
    &&& p.text matches Some(t) && t@ == text
    &&& p.part_type@ == "text"@
    &&& p.tool is None
    &&& p.state is None
}

/// A part of type "text".
pub fn text_part(text: &str) -> (p: MessagePart)
    ensures
        is_text_part(p, text@),
{
    MessagePart { text: Some(string_from(text)), part_type: string_from("text"), tool: None, state: None }
}

/// The message shown for what the user sent, until the server's copy
/// arrives; `uuid` is a fresh random id.
pub fn pending_user_message(session_id: &str, text: &str, uuid: &str) -> (m: Message)
    ensures
        is_pending_user_message(m, session_id@, text@, uuid@),
{
    let mut id = string_from("temp-");
    id.append(uuid);
    let mut parts: Vec<MessagePart> = Vec::new();
    parts.push(text_part(text));
    Message {
        info: MessageInfo {
            id,
            session_id: Some(string_from(session_id)),
            role: string_from("user"),
            cost: None,
            tokens: None,
            model_id: None,
            provider_id: None,
            mode: None,
            path: None,
        },
        parts,
    }
}

/// The request that posts `text` to be answered by the given model and
/// agent.
pub fn text_request(text: &str, provider_id: &str, model_id: &str, agent: &str) -> (r:
    SendMessageRequest)
    ensures
        r.parts@.len() == 1,
        is_text_part(r.parts@[0], text@),
        r.model.model_id@ == model_id@,
        r.model.provider_id@ == provider_id@,
        r.agent@ == agent@,
{
    let mut parts: Vec<MessagePart> = Vec::new();
    parts.push(text_part(text));
    SendMessageRequest {
        parts,
        model: ModelInfo { model_id: string_from(model_id), provider_id: string_from(provider_id) },
        agent: string_from(agent),
    }
}

impl MessageInput {
    /// No session, no models, no agents; the first model and agent chosen.
    pub fn new() -> (i: MessageInput)
        ensures
            i.session_id is None,
            i.models@.len() == 0,
            i.selected_model == 0,
            i.agents@.len() == 0,
            i.selected_agent == 0,
    {
        MessageInput {
            session_id: None,
            models: Vec::new(),
            selected_model: 0,
            agents: Vec::new(),
            selected_agent: 0,
        }
    }

    /// Sets the session messages are posted to.
    pub fn set_session_id(&mut self, session_id: Option<String>)
        ensures
            final(self).session_id == session_id,
            final(self).models == old(self).models,
            final(self).selected_model == old(self).selected_model,
            final(self).agents == old(self).agents,
            final(self).selected_agent == old(self).selected_agent,
    {
        self.session_id = session_id;
    }

    /// Chooses the first model whose key is `model_id`, and gives its
    /// index; nothing changes when there is none.
    pub fn set_model_by_id(&mut self, model_id: &str) -> (r: Option<usize>)
        ensures
            final(self).session_id == old(self).session_id,
            final(self).models == old(self).models,
            final(self).agents == old(self).agents,
            final(self).selected_agent == old(self).selected_agent,
            match r {
                Some(i) => {
                    &&& i < old(self).models@.len()
                    &&& old(self).models@[i as int].model_id@ == model_id@
                    &&& forall|j: int| 0 <= j < i ==> old(self).models@[j].model_id@ != model_id@
                    &&& final(self).selected_model == i
                },
                None => {
                    &&& forall|j: int|
                        0 <= j < old(self).models@.len() ==> (#[trigger] old(self).models@[j]).model_id@
                            != model_id@
                    &&& final(self).selected_model == old(self).selected_model
                },
            },
    {
        let mut i: usize = 0;
        while i < self.models.len()
            invariant
                *self == *old(self),
                i <= self.models.len(),
                forall|j: int| 0 <= j < i ==> self.models@[j].model_id@ != model_id@,
            decreases self.models.len() - i,
        {
            if str_eq(self.models[i].model_id.as_str(), model_id) {
                self.selected_model = i;
                return Some(i);
            }
            i = i + 1;
        }
        None
    }

    /// Chooses the first agent named `agent_name`, and gives its index;
    /// nothing changes when there is none.
    pub fn set_agent_by_name(&mut self, agent_name: &str) -> (r: Option<usize>)
        ensures
            final(self).session_id == old(self).session_id,
            final(self).models == old(self).models,
            final(self).selected_model == old(self).selected_model,
            final(self).agents == old(self).agents,
            match r {
                Some(i) => {
                    &&& i < old(self).agents@.len()
                    &&& old(self).agents@[i as int].name@ == agent_name@
                    &&& forall|j: int| 0 <= j < i ==> old(self).agents@[j].name@ != agent_name@
                    &&& final(self).selected_agent == i
                },
                None => {
                    &&& forall|j: int|
                        0 <= j < old(self).agents@.len() ==> (#[trigger] old(self).agents@[j]).name@
                            != agent_name@
                    &&& final(self).selected_agent == old(self).selected_agent
                },
            },
    {
        let mut i: usize = 0;
        while i < self.agents.len()
            invariant
                *self == *old(self),
                i <= self.agents.len(),
                forall|j: int| 0 <= j < i ==> self.agents@[j].name@ != agent_name@,
            decreases self.agents.len() - i,
        {
            if str_eq(self.agents[i].name.as_str(), agent_name) {
                self.selected_agent = i;
                return Some(i);
            }
            i = i + 1;
        }
        None
    }

    /// Takes the models of the configuration, provider by provider; the
    /// choice of model stays at the same index.
    pub fn load_models(&mut self, config: &Config)
        requires
            config.wf(),
        ensures
            choices_view(final(self).models@) == flattened(config.providers@),
            choices_view(final(self).models@) == choices_by_provider(config.providers@).flatten(),
            final(self).session_id == old(self).session_id,
            final(self).selected_model == old(self).selected_model,
            final(self).agents == old(self).agents,
            final(self).selected_agent == old(self).selected_agent,
    {
        let mut models: Vec<ModelChoice> = Vec::new();
        let providers = &config.providers;
        for i in 0..providers.len()
            invariant
                choices_view(models@) == flattened(providers@.take(i as int)),
        {
            assert(providers@.take(i + 1).drop_last() == providers@.take(i as int));
            let provider = &providers[i];
            let ghost before = choices_view(models@);
            for j in 0..provider.models.len()
                invariant
                    choices_view(models@) == before + provider_choices(*provider, j as int),
            {
                let entry = &provider.models[j];
                let ghost prev = models@;
                models.push(
                    ModelChoice {
                        provider_id: provider.id.clone(),
                        model_id: entry.0.clone(),
                        name: entry.1.name.clone(),
                    },
                );
                assert(choices_view(models@) =~= choices_view(prev).push(
                    (provider.id@, entry.0@, entry.1.name@),
                ));
                assert(provider_choices(*provider, j + 1) =~= provider_choices(
                    *provider,
                    j as int,
                ).push((provider.id@, entry.0@, entry.1.name@)));
                assert(choices_view(models@) =~= before + provider_choices(*provider, j + 1));
            }
            assert(provider.models@.take(provider.models@.len() as int) == provider.models@);
            assert(providers@.take(i + 1).last() == *provider);
        }
        assert(providers@.take(providers@.len() as int) == providers@);
        proof {
            lemma_flattened_in_provider_order(providers@);
        }
        self.models = models;
    }

    /// Takes the agents the server listed; the choice of agent stays at the
    /// same index.
    pub fn load_agents(&mut self, agents: Vec<Agent>)
        ensures
            final(self).agents == agents,
            final(self).session_id == old(self).session_id,
            final(self).models == old(self).models,
            final(self).selected_model == old(self).selected_model,
            final(self).selected_agent == old(self).selected_agent,
    {
        self.agents = agents;
    }

    /// Chooses the model at `index` from the menu.
    pub fn select_model(&mut self, index: usize)
        ensures
            final(self).selected_model == index,
            final(self).session_id == old(self).session_id,
            final(self).models == old(self).models,
            final(self).agents == old(self).agents,
            final(self).selected_agent == old(self).selected_agent,
    {
        self.selected_model = index;
    }

    /// Chooses the agent at `index` from the menu.
    pub fn select_agent(&mut self, index: usize)
        ensures
            final(self).selected_agent == index,
            final(self).session_id == old(self).session_id,
            final(self).models == old(self).models,
            final(self).selected_model == old(self).selected_model,
            final(self).agents == old(self).agents,
    {
        self.selected_agent = index;
    }

    /// What clicking "Send" with `text` in the text area does: nothing when
    /// the text is empty or no model or no agent is chosen; otherwise post
    /// the text to the current session, or to a new one when there is none.
    pub fn plan_send(&self, text: &str) -> (p: SendPlan)
        ensures
            text@.len() == 0 ==> p is EmptyText,
            text@.len() > 0 && self.selected_model >= self.models@.len() ==> p is NoModel,
            text@.len() > 0 && self.selected_model < self.models@.len() && self.selected_agent
                >= self.agents@.len() ==> p is NoAgent,
            text@.len() > 0 && self.selected_model < self.models@.len() && self.selected_agent
                < self.agents@.len() ==> {
                let m = self.models@[self.selected_model as int];
                let a = self.agents@[self.selected_agent as int];
                match self.session_id {
                    Some(sid) => p matches SendPlan::ToSession {
                        session_id,
                        text: t,
                        provider_id,
                        model_id,
                        agent,
                    } && session_id@ == sid@ && t@ == text@ && provider_id@ == m.provider_id@
                        && model_id@ == m.model_id@ && agent@ == a.name@,
                    None => p matches SendPlan::NewSession { text: t, provider_id, model_id, agent }
                        && t@ == text@ && provider_id@ == m.provider_id@ && model_id@
                        == m.model_id@ && agent@ == a.name@,
                }
            },
    {
        if text.unicode_len() == 0 {
            return SendPlan::EmptyText;
        }
        if self.selected_model >= self.models.len() {
            return SendPlan::NoModel;
        }
        let m = &self.models[self.selected_model];
        if self.selected_agent >= self.agents.len() {
            return SendPlan::NoAgent;
        }
        let agent = self.agents[self.selected_agent].name.clone();
        match &self.session_id {
            Some(sid) => SendPlan::ToSession {
                session_id: sid.clone(),
                text: string_from(text),
                provider_id: m.provider_id.clone(),
                model_id: m.model_id.clone(),
                agent,
            },
            None => SendPlan::NewSession {
                text: string_from(text),
                provider_id: m.provider_id.clone(),
                model_id: m.model_id.clone(),
                agent,
            },
        }
    }
}

} // verus!

verus! {

/// When "Send" can be clicked, the text is not empty, so clicking it is
/// never refused for an empty text.
pub proof fn lemma_enabled_send_has_text(text: Seq<char>)
    requires
        !(blank(text) || text == placeholder()),
    ensures
        text.len() > 0,
{
}

} // verus!

verus! {

/// Getting the focus and losing it again without typing leaves the text
/// area as it was, when it showed the placeholder or real text: the
/// placeholder is emptied and put back, and real text is kept.
pub proof fn lemma_focus_round_trip(text: Seq<char>)
    requires
        text == placeholder() || !blank(text),
    ensures
        after_focus_out(after_focus_in(text)) == text,
{
    reveal_strlit("Type a message...");
    assert(!is_ws(placeholder()[0]));
    assert(!blank(placeholder()));
}

} // verus!
