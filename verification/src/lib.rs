//! Verified state machines of the Xcavate real-estate pallets: the
//! marketplace for fractionalised property NFTs, property management and
//! governance, community projects, the community loan pool, staking,
//! whitelisting and user profiles.

pub mod common;
pub mod ledger;
pub mod assets;
pub mod whitelist;
pub mod nfts;
pub mod marketplace;
pub mod property_management;
pub mod weights;
pub mod arith;
pub mod property_governance;
pub mod community_projects;
pub mod community_loan_pool;
pub mod xcavate_staking;
pub mod user;
pub mod genesis;
