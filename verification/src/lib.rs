//! The verified core of Heart, a local AI companion that feels emotions and
//! remembers conversations: the text it shows and sends, the prompts it
//! builds, the steps of a conversation turn, and the policy of the tiered
//! memory in which it keeps what was said.
use vstd::prelude::*;

pub mod text;
pub mod progress;
pub mod numbers;
pub mod prompts;
pub mod errors;
pub mod clock;
pub mod memory;
pub mod llm;
pub mod api_response;
pub mod brain;
pub mod turn;
