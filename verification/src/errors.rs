//! The error types of the services, and the messages they read as.
use vstd::prelude::*;
use crate::text::concat2;

verus! {

/// The error of a JSON (de)serialisation (`serde_json::Error`).
#[verifier::external_type_specification]
#[verifier::external_body]
pub struct ExSerdeJsonError(serde_json::Error);

/// The message of a JSON error (`serde_json::Error`'s `Display`, through
/// `to_string`); nothing is stated of the text.
#[verifier::external_body]
fn serde_error_text(e: &serde_json::Error) -> String {
    e.to_string()
}

/// Errors of the tiered memory store.
pub enum MemoryManagerServiceError {
    ParseError(String),
    FsError(String),
    LanceDbError(String),
}

impl MemoryManagerServiceError {
    /// The message this error reads as.
    pub open spec fn describe(&self) -> Seq<char> {
        match self {
            MemoryManagerServiceError::FsError(m) => "File system error: "@ + m@,
            MemoryManagerServiceError::ParseError(m) => "Parse error: "@ + m@,
            MemoryManagerServiceError::LanceDbError(m) => "LanceDB error (vector database): "@ + m@,
        }
    }

    /// The message this error reads as.
    pub fn message(&self) -> (m: String)
        ensures
            m@ == self.describe(),
    {
        match self {
            MemoryManagerServiceError::FsError(m) => concat2("File system error: ", m.as_str()),
            MemoryManagerServiceError::ParseError(m) => concat2("Parse error: ", m.as_str()),
            MemoryManagerServiceError::LanceDbError(m) => concat2(
                "LanceDB error (vector database): ",
                m.as_str(),
            ),
        }
    }
}

/// Errors of the emotion service.
pub enum EmotionServiceError {
    PredictorError(String),
    MemoryManagerError(String),
}

impl EmotionServiceError {
    /// The message this error reads as.
    pub open spec fn describe(&self) -> Seq<char> {
        match self {
            EmotionServiceError::PredictorError(m) => "Predictor error: "@ + m@,
            EmotionServiceError::MemoryManagerError(m) => "Memory manager error: "@ + m@,
        }
    }

    /// The message this error reads as.
    pub fn message(&self) -> (m: String)
        ensures
            m@ == self.describe(),
    {
        match self {
            EmotionServiceError::PredictorError(m) => concat2("Predictor error: ", m.as_str()),
            EmotionServiceError::MemoryManagerError(m) => concat2("Memory manager error: ", m.as_str()),
        }
    }

    /// A memory store error, kept as its message.
    pub fn from_memory_error(error: &MemoryManagerServiceError) -> (e: Self)
        ensures
            e is MemoryManagerError,
            e->MemoryManagerError_0@ == error.describe(),
    {
        EmotionServiceError::MemoryManagerError(error.message())
    }
}

/// Errors of the embedding service.
pub enum EmbeddingServiceError {
    FastEmbedError(String),
}

impl EmbeddingServiceError {
    /// The message this error reads as.
    pub open spec fn describe(&self) -> Seq<char> {
        match self {
            EmbeddingServiceError::FastEmbedError(m) => "FastEmbed error: "@ + m@,
        }
    }

    /// The message this error reads as.
    pub fn message(&self) -> (m: String)
        ensures
            m@ == self.describe(),
    {
        match self {
            EmbeddingServiceError::FastEmbedError(m) => concat2("FastEmbed error: ", m.as_str()),
        }
    }
}

/// Errors of the language model service.
pub enum LLMServiceError {
    ReqwestError(String),
    ParseError(String),
    Other(String),
}

impl LLMServiceError {
    /// The message this error reads as.
    pub open spec fn describe(&self) -> Seq<char> {
        match self {
            LLMServiceError::ReqwestError(m) => "Reqwest error: "@ + m@,
            LLMServiceError::ParseError(m) => "Parse error: "@ + m@,
            LLMServiceError::Other(m) => "Other error: "@ + m@,
        }
    }

    /// The message this error reads as.
    pub fn message(&self) -> (m: String)
        ensures
            m@ == self.describe(),
    {
        match self {
            LLMServiceError::ReqwestError(m) => concat2("Reqwest error: ", m.as_str()),
            LLMServiceError::ParseError(m) => concat2("Parse error: ", m.as_str()),
            LLMServiceError::Other(m) => concat2("Other error: ", m.as_str()),
        }
    }
}

/// Errors of the background thought service.
pub enum ThoughtServiceError {
    StoreError(String),
    MemoryError(MemoryManagerServiceError),
    LlmError(LLMServiceError),
}

impl ThoughtServiceError {
    /// The message this error reads as.
    pub open spec fn describe(&self) -> Seq<char> {
        match self {
            ThoughtServiceError::StoreError(m) => "Store error: "@ + m@,
            ThoughtServiceError::MemoryError(e) => "Memory error: "@ + e.describe(),
            ThoughtServiceError::LlmError(e) => "LLM error: "@ + e.describe(),
        }
    }

    /// The message this error reads as.
    pub fn message(&self) -> (m: String)
        ensures
            m@ == self.describe(),
    {
        match self {
            ThoughtServiceError::StoreError(m) => concat2("Store error: ", m.as_str()),
            ThoughtServiceError::MemoryError(e) => {
                let inner = e.message();
                concat2("Memory error: ", inner.as_str())
            },
            ThoughtServiceError::LlmError(e) => {
                let inner = e.message();
                concat2("LLM error: ", inner.as_str())
            },
        }
    }
}

impl From<MemoryManagerServiceError> for ThoughtServiceError {
    fn from(error: MemoryManagerServiceError) -> Self {
        ThoughtServiceError::MemoryError(error)
    }
}

impl vstd::std_specs::convert::FromSpecImpl<MemoryManagerServiceError> for ThoughtServiceError {
    open spec fn obeys_from_spec() -> bool {
        true
    }

    open spec fn from_spec(v: MemoryManagerServiceError) -> Self {
        ThoughtServiceError::MemoryError(v)
    }
}

impl From<LLMServiceError> for ThoughtServiceError {
    fn from(error: LLMServiceError) -> Self {
        ThoughtServiceError::LlmError(error)
    }
}

impl vstd::std_specs::convert::FromSpecImpl<LLMServiceError> for ThoughtServiceError {
    open spec fn obeys_from_spec() -> bool {
        true
    }

    open spec fn from_spec(v: LLMServiceError) -> Self {
        ThoughtServiceError::LlmError(v)
    }
}

/// The three outcomes of a comparison, as an error carries one.
pub enum ComparisonOutcome {
    Less,
    Equal,
    Greater,
}

/// Errors of the brain, which drives a conversation.
pub enum BrainError {
    MemoryManager(MemoryManagerServiceError),
    EmotionService(EmotionServiceError),
    ThoughtService(ThoughtServiceError),
    LlmService(LLMServiceError),
    EmbeddingService(EmbeddingServiceError),
    PathError(String),
    StoreError(String),
    InvalidMessageError(String),
    DateTimeError(String),
    SerdeError(serde_json::Error),
    OrderingError(ComparisonOutcome),
}

/// The name of a comparison outcome as `Debug` prints it.
pub open spec fn outcome_name(o: ComparisonOutcome) -> Seq<char> {
    match o {
        ComparisonOutcome::Less => "Less"@,
        ComparisonOutcome::Equal => "Equal"@,
        ComparisonOutcome::Greater => "Greater"@,
    }
}

impl BrainError {
    /// The message this error reads as; that of a JSON error ends in the
    /// JSON error's own message, which is not described here.
    pub open spec fn describe(&self) -> Seq<char> {
        match self {
            BrainError::MemoryManager(e) => "Memory manager error: "@ + e.describe(),
            BrainError::EmotionService(e) => "Emotion service error: "@ + e.describe(),
            BrainError::ThoughtService(e) => "Thought service error: "@ + e.describe(),
            BrainError::LlmService(e) => "LLM service error: "@ + e.describe(),
            BrainError::EmbeddingService(e) => "Embedding service error: "@ + e.describe(),
            BrainError::PathError(m) => "Path error: "@ + m@,
            BrainError::StoreError(m) => "Store error: "@ + m@,
            BrainError::InvalidMessageError(m) => "Invalid message error: "@ + m@,
            BrainError::DateTimeError(m) => "Date time error: "@ + m@,
            BrainError::SerdeError(_) => "Serde error: "@,
            BrainError::OrderingError(o) => "Ordering error: "@ + outcome_name(*o),
        }
    }

    /// The message this error reads as.
    pub fn message(&self) -> (m: String)
        ensures
            !(self is SerdeError) ==> m@ == self.describe(),
            self is SerdeError ==> m@.take("Serde error: "@.len() as int) == self.describe(),
    {
        match self {
            BrainError::MemoryManager(e) => {
                let inner = e.message();
                concat2("Memory manager error: ", inner.as_str())
            },
            BrainError::EmotionService(e) => {
                let inner = e.message();
                concat2("Emotion service error: ", inner.as_str())
            },
            BrainError::ThoughtService(e) => {
                let inner = e.message();
                concat2("Thought service error: ", inner.as_str())
            },
            BrainError::LlmService(e) => {
                let inner = e.message();
                concat2("LLM service error: ", inner.as_str())
            },
            BrainError::EmbeddingService(e) => {
                let inner = e.message();
                concat2("Embedding service error: ", inner.as_str())
            },
            BrainError::PathError(m) => concat2("Path error: ", m.as_str()),
            BrainError::StoreError(m) => concat2("Store error: ", m.as_str()),
            BrainError::InvalidMessageError(m) => concat2("Invalid message error: ", m.as_str()),
            BrainError::DateTimeError(m) => concat2("Date time error: ", m.as_str()),
            BrainError::SerdeError(e) => {
                let inner = serde_error_text(e);
                let out = concat2("Serde error: ", inner.as_str());
                assert(out@.take("Serde error: "@.len() as int) =~= "Serde error: "@);
                out
            },
            BrainError::OrderingError(o) => match o {
                ComparisonOutcome::Less => concat2("Ordering error: ", "Less"),
                ComparisonOutcome::Equal => concat2("Ordering error: ", "Equal"),
                ComparisonOutcome::Greater => concat2("Ordering error: ", "Greater"),
            },
        }
    }

    /// The error that carries a comparison outcome.
    pub fn from_ordering(o: std::cmp::Ordering) -> (e: Self)
        ensures
            e is OrderingError,
            o == std::cmp::Ordering::Less ==> e == BrainError::OrderingError(ComparisonOutcome::Less),
            o == std::cmp::Ordering::Equal ==> e == BrainError::OrderingError(ComparisonOutcome::Equal),
            o == std::cmp::Ordering::Greater ==> e == BrainError::OrderingError(ComparisonOutcome::Greater),
    {
        match o {
            std::cmp::Ordering::Less => BrainError::OrderingError(ComparisonOutcome::Less),
            std::cmp::Ordering::Equal => BrainError::OrderingError(ComparisonOutcome::Equal),
            std::cmp::Ordering::Greater => BrainError::OrderingError(ComparisonOutcome::Greater),
        }
    }
}

impl From<MemoryManagerServiceError> for BrainError {
    fn from(error: MemoryManagerServiceError) -> Self {
        BrainError::MemoryManager(error)
    }
}

impl vstd::std_specs::convert::FromSpecImpl<MemoryManagerServiceError> for BrainError {
    open spec fn obeys_from_spec() -> bool {
        true
    }

    open spec fn from_spec(v: MemoryManagerServiceError) -> Self {
        BrainError::MemoryManager(v)
    }
}

impl From<EmotionServiceError> for BrainError {
    fn from(error: EmotionServiceError) -> Self {
        BrainError::EmotionService(error)
    }
}

impl vstd::std_specs::convert::FromSpecImpl<EmotionServiceError> for BrainError {
    open spec fn obeys_from_spec() -> bool {
        true
    }

    open spec fn from_spec(v: EmotionServiceError) -> Self {
        BrainError::EmotionService(v)
    }
}

impl From<ThoughtServiceError> for BrainError {
    fn from(error: ThoughtServiceError) -> Self {
        BrainError::ThoughtService(error)
    }
}

impl vstd::std_specs::convert::FromSpecImpl<ThoughtServiceError> for BrainError {
    open spec fn obeys_from_spec() -> bool {
        true
    }

    open spec fn from_spec(v: ThoughtServiceError) -> Self {
        BrainError::ThoughtService(v)
    }
}

impl From<LLMServiceError> for BrainError {
    fn from(error: LLMServiceError) -> Self {
        BrainError::LlmService(error)
    }
}

impl vstd::std_specs::convert::FromSpecImpl<LLMServiceError> for BrainError {
    open spec fn obeys_from_spec() -> bool {
        true
    }

    open spec fn from_spec(v: LLMServiceError) -> Self {
        BrainError::LlmService(v)
    }
}

impl From<EmbeddingServiceError> for BrainError {
    fn from(error: EmbeddingServiceError) -> Self {
        BrainError::EmbeddingService(error)
    }
}

impl vstd::std_specs::convert::FromSpecImpl<EmbeddingServiceError> for BrainError {
    open spec fn obeys_from_spec() -> bool {
        true
    }

    open spec fn from_spec(v: EmbeddingServiceError) -> Self {
        BrainError::EmbeddingService(v)
    }
}

impl From<serde_json::Error> for BrainError {
    fn from(error: serde_json::Error) -> Self {
        BrainError::SerdeError(error)
    }
}

impl vstd::std_specs::convert::FromSpecImpl<serde_json::Error> for BrainError {
    open spec fn obeys_from_spec() -> bool {
        true
    }

    open spec fn from_spec(v: serde_json::Error) -> Self {
        BrainError::SerdeError(v)
    }
}

} // verus!
