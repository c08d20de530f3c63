//! The records the OpenCode server sends and receives.
use vstd::prelude::*;

verus! {

/// A chat session on the server.
#[derive(Debug, Clone, PartialEq, Eq)]
pub struct Session {
    pub id: String,
    pub title: Option<String>,
}

/// A message of a session: who wrote it and what it is made of.
#[derive(Debug, Clone, PartialEq, Eq)]
pub struct Message {
    pub info: MessageInfo,
    pub parts: Vec<MessagePart>,
}

/// What the server records about a message.
///
/// The server reports the cost as a floating-point amount; it is kept here
/// as the IEEE-754 bit pattern of that amount (`f64::to_bits`), which
/// stands for it exactly.
#[derive(Debug, Clone, PartialEq, Eq)]
pub struct MessageInfo {
    pub id: String,
    pub session_id: Option<String>,
    pub role: String,
    pub cost: Option<u64>,
    pub tokens: Option<MessageTokens>,
    pub model_id: Option<String>,
    pub provider_id: Option<String>,
    pub mode: Option<String>,
    pub path: Option<MessagePath>,
}

/// The working directory and project root a message was produced in.
#[derive(Debug, Clone, PartialEq, Eq)]
pub struct MessagePath {
    pub cwd: String,
    pub root: String,
}

/// Token counts of a message.
#[derive(Debug, Clone, Copy, PartialEq, Eq)]
pub struct MessageTokens {
    pub input: u32,
    pub output: u32,
    pub reasoning: u32,
    pub cache: TokenCache,
}

/// Cache reads and writes, in tokens.
#[derive(Debug, Clone, Copy, PartialEq, Eq)]
pub struct TokenCache {
    pub read: u32,
    pub write: u32,
}

/// One part of a message: text, a tool call, or another kind.
#[derive(Debug, Clone, PartialEq, Eq)]
pub struct MessagePart {
    pub text: Option<String>,
    pub part_type: String,
    pub tool: Option<String>,
    pub state: Option<ToolState>,
}

/// The state of a tool call: its title and what it printed.
#[derive(Debug, Clone, PartialEq, Eq)]
pub struct ToolState {
    pub title: Option<String>,
    pub output: Option<String>,
}

/// A model provider and its models.
///
/// The server sends the models as a map from key to model; `models` holds
/// its entries in the order in which that map was walked.
#[derive(Debug, Clone, PartialEq, Eq)]
pub struct Provider {
    pub id: String,
    pub name: String,
    pub models: Vec<(String, Model)>,
}

impl Provider {
    /// The invariant the server's map gives: no key occurs twice.
    pub open spec fn wf(&self) -> bool {
        forall|i: int, j: int|
            0 <= i < j < self.models@.len() ==> (#[trigger] self.models@[i]).0@
                != (#[trigger] self.models@[j]).0@
    }
}

/// A model offered by a provider.
#[derive(Debug, Clone, PartialEq, Eq)]
pub struct Model {
    pub id: String,
    pub name: String,
}

/// The providers the server is configured with.
#[derive(Debug, Clone, PartialEq, Eq)]
pub struct Config {
    pub providers: Vec<Provider>,
}

impl Config {
    /// Every provider holds each model key at most once.
    pub open spec fn wf(&self) -> bool {
        forall|k: int| 0 <= k < self.providers@.len() ==> (#[trigger] self.providers@[k]).wf()
    }
}

/// An agent the server offers.
#[derive(Debug, Clone, PartialEq, Eq)]
pub struct Agent {
    pub name: String,
    pub description: Option<String>,
    pub mode: String,
    pub built_in: bool,
}

/// The model a message is to be answered with.
#[derive(Debug, Clone, PartialEq, Eq)]
pub struct ModelInfo {
    pub model_id: String,
    pub provider_id: String,
}

/// The body of a request that posts a message to a session.
#[derive(Debug, Clone, PartialEq, Eq)]
pub struct SendMessageRequest {
    pub parts: Vec<MessagePart>,
    pub model: ModelInfo,
    pub agent: String,
}

} // verus!
