//! The rules of the Stellarcade game contracts.
//!
//! Each contract is a value that holds its ledger entries. A call reads what
//! it needs of its host from an `env::Env` and leaves in it, in order, what
//! it asks of the host: authorisations, token transfers, ledger writes and
//! events. A call that is refused leaves the contract as it was.

pub mod address;
pub mod bps;
pub mod env;
pub mod table;

pub mod battle_pass;
pub mod cooldown_manager;
pub mod game_subscription;
pub mod live_odds;
pub mod nft_staking;
pub mod player_insurance;
pub mod points_exchange;
pub mod referral_tracker;
pub mod wager_limits;
pub mod weekly_tournament;
