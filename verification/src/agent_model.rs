//! The parts of an agent exchange that a transcript block reads: the user's
//! inputs and the agent's ordered output messages.

use vstd::prelude::*;

use crate::thinking::MessageId;

verus! {

/// How long a reasoning message took, in whole seconds plus a fraction of
/// a second in nanoseconds.
#[derive(Clone, Copy, Debug, PartialEq, Eq, Structural)]
pub struct ReasoningDuration {
    secs: u64,
    subsec_nanos: u32,
}

impl ReasoningDuration {
    /// The whole seconds.
    pub closed spec fn seconds(&self) -> u64 {
        self.secs
    }

    /// The fraction of a second, in nanoseconds.
    pub closed spec fn nanos(&self) -> u32 {
        self.subsec_nanos
    }

    /// The fraction is less than a second.
    #[verifier::type_invariant]
    spec fn fraction_below_one_second(self) -> bool {
        self.subsec_nanos < 1_000_000_000
    }

    /// A duration of exactly `secs` seconds.
    pub fn from_secs(secs: u64) -> (r: ReasoningDuration)
        ensures
            r.seconds() == secs,
            r.nanos() == 0,
    {
        ReasoningDuration { secs, subsec_nanos: 0 }
    }

    /// A duration of `secs` seconds plus `nanos` nanoseconds, the whole
    /// seconds in `nanos` carried into the seconds.
    pub fn new(secs: u64, nanos: u32) -> (r: ReasoningDuration)
        requires
            secs + nanos / 1_000_000_000 <= u64::MAX,
        ensures
            r.seconds() == secs + nanos / 1_000_000_000,
            r.nanos() == nanos % 1_000_000_000,
    {
        ReasoningDuration {
            secs: secs + (nanos / 1_000_000_000) as u64,
            subsec_nanos: nanos % 1_000_000_000,
        }
    }

    /// The number of whole seconds.
    pub fn as_secs(&self) -> (r: u64)
        ensures
            r == self.seconds(),
    {
        self.secs
    }

    /// The fraction of a second, in nanoseconds.
    pub fn subsec_nanos(&self) -> (r: u32)
        ensures
            r == self.nanos(),
            r < 1_000_000_000,
    {
        proof {
            use_type_invariant(self);
        }
        self.subsec_nanos
    }
}

/// One section of an agent text; only plain text is rendered so far, the
/// other kinds are told apart by their kind alone.
#[derive(Clone, Debug, PartialEq, Eq)]
pub enum AIAgentTextSection {
    PlainText { text: String },
    Code,
    Table,
    Image,
    MermaidDiagram,
}

/// A piece of agent text made of ordered sections.
#[derive(Clone, Debug, PartialEq, Eq)]
pub struct AIAgentText {
    pub sections: Vec<AIAgentTextSection>,
}

/// A tool call made by the agent, identified by its call id.
#[derive(Clone, Debug, PartialEq, Eq)]
pub struct AIAgentAction {
    pub id: String,
}

impl AIAgentAction {
    /// Copies this action.
    pub fn duplicate(&self) -> (r: AIAgentAction)
        ensures
            r.id@ == self.id@,
    {
        AIAgentAction { id: self.id.clone() }
    }
}

/// The kind and payload of one output message.
#[derive(Clone, Debug, PartialEq, Eq)]
pub enum AIAgentOutputMessageType {
    Text(AIAgentText),
    Action(AIAgentAction),
    /// Reasoning text; `finished_duration` is `None` while it streams.
    Reasoning { text: AIAgentText, finished_duration: Option<ReasoningDuration> },
    Summarization,
    Subagent,
    TodoOperation,
    WebSearch,
    WebFetch,
    CommentsAddressed,
    DebugOutput,
    ArtifactCreated,
    SkillInvoked,
    MessagesReceivedFromAgents,
    EventsFromAgents,
}

/// One message of the agent's output.
#[derive(Clone, Debug, PartialEq, Eq)]
pub struct AIAgentOutputMessage {
    pub id: MessageId,
    pub message: AIAgentOutputMessageType,
}

/// The agent's output, messages in order.
#[derive(Clone, Debug, PartialEq, Eq)]
pub struct AIAgentOutput {
    pub messages: Vec<AIAgentOutputMessage>,
}

/// One input of the exchange; `display_query` is the text shown for it, if
/// any.
#[derive(Clone, Debug, PartialEq, Eq)]
pub struct AIAgentInput {
    pub display_query: Option<String>,
}

/// What the block renders of one exchange: its inputs and, once there is one,
/// the output to render.
#[derive(Clone, Debug, PartialEq, Eq)]
pub struct AIExchange {
    pub inputs: Vec<AIAgentInput>,
    pub output: Option<AIAgentOutput>,
}

/// Identifier of a conversation.
#[derive(Clone, Debug, PartialEq, Eq)]
pub struct AIConversationId(pub String);

/// Identifier of one exchange of a conversation.
#[derive(Clone, Debug, PartialEq, Eq)]
pub struct AIAgentExchangeId(pub String);

} // verus!
