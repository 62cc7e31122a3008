//! Conversation memories and the policy of the hot, warm and cold tiers
//! that hold them.
pub mod record;
pub mod tiers;
