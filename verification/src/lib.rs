//! A reputation and voting engine for an on-chain organization.
//!
//! Wallets accumulate a reputation score by receiving up- and downvotes from
//! token-holding peers; the score maps to a tiered role with a configurable
//! unlock threshold. The engine enforces a token gate (a voter must hold a
//! non-zero balance of the gating mint), a per-(voter, target) cooldown, and
//! admin-only configuration.

pub mod engine;
pub mod error;
pub mod laws;
pub mod state;

pub use engine::ReputeDao;
pub use error::ReputeDaoError;
pub use state::{ProgramState, Role, UserScore, VoteRecord};
