//! Account state of the lottery program.
pub mod sizes;
pub mod bitmap;
pub mod config;
pub mod lottery;
pub mod participant;
pub mod vault;
pub mod winners_ledger;
pub mod vote_tally;
pub mod finalization_ledger;

pub use config::Config;
pub use lottery::{Lottery, LotteryPhase, LotteryStatus};
pub use participant::Participant;
pub use vault::Vault;
pub use winners_ledger::WinnersLedger;
pub use vote_tally::VoteTally;
pub use finalization_ledger::{FinalizationLedger, SelectedWinner, WinnerPage, FINALIZATION_PROTOCOL_VERSION, FINALIZATION_PHASE_AGGREGATING, FINALIZATION_PHASE_SELECTING, FINALIZATION_PHASE_COMPLETED, WINNERS_PER_PAGE};
