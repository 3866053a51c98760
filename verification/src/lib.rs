//! Reputation-leveling engine for organizational membership.
//!
//! An organization fixes a weighted rubric over scoring criteria, partitions
//! the criteria into contiguous groups, and gives each group an ascending
//! ladder of thresholds. Peer reviews accumulate per criterion; reconciliation
//! turns the accumulated sums into group averages, derives the level each
//! average would justify, and moves the committed level vector at most one
//! step in one group per call. A quorum and a cooldown gate decide when a
//! candidate vector is committed and the badge metadata republished.
//!
//! Score quantities (weights, accumulated sums, thresholds) are carried as
//! plain integers in units chosen by the organization; every division
//! truncates toward zero.

pub mod error;
pub mod instructions;
pub mod key;
pub mod org;
pub mod realloc;
pub mod score;
pub mod text;

pub use error::GrowthError;
pub use key::Key;
pub use org::Org;
pub use org::create_organization;
pub use org::organization_space_to_add;
pub use score::Score;
pub use instructions::effective_timestamp;
pub use instructions::receive_score;
pub use instructions::register;
pub use instructions::register_space_to_add;
pub use instructions::send_score;
pub use instructions::update_scores;
pub use instructions::verify;
pub use realloc::funding_shortfall;
pub use realloc::grow_record;
pub use realloc::grown_size;
pub use text::badge_metadata_name;
pub use text::levels_uri;
pub use text::org_metadata_name;
pub use text::org_uri;
pub use text::u8_to_dec;
