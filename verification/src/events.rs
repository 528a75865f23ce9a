//! Structured events that the lottery program reports.
//!
//! Each instruction reports what it did as one of these events; they carry
//! everything an indexer needs to follow the lottery's state.
use vstd::prelude::*;

verus! {

/// A winner's lucky words, as revealed.
#[derive(Debug, Clone)]
pub struct WinnerLuckyWord {
    pub wallet: String,
    pub lucky_words: String,
}

/// Every event the lottery program reports.
#[derive(Debug, Clone)]
pub enum LotteryEvent {
    SystemInitialized {
        authority: String,
        config: String,
        ticket_price_lamports: u64,
        service_charge_bps: u16,
        timestamp: i64,
    },
    ServiceChargeUpdated {
        config: String,
        old_bps: u16,
        new_bps: u16,
        authority: String,
        timestamp: i64,
    },
    WindowsUpdated {
        config: String,
        old_buy_window_secs: u32,
        new_buy_window_secs: u32,
        old_upload_window_secs: u32,
        new_upload_window_secs: u32,
        authority: String,
        timestamp: i64,
    },
    LotteryCreated {
        lottery_id: u64,
        lottery: String,
        config: String,
        authority: String,
        vault: String,
        created_at_unix: i64,
        buy_start_unix: i64,
        buy_deadline_unix: i64,
        upload_start_unix: i64,
        upload_deadline_unix: i64,
    },
    TicketsPurchased {
        lottery_id: u64,
        lottery: String,
        participant: String,
        buyer: String,
        tickets_bought: u64,
        total_tickets_for_participant: u64,
        total_tickets_for_lottery: u64,
        amount_paid: u64,
        total_funds: u64,
        proof_of_chance_hash: Option<[u8; 32]>,
        timestamp: i64,
    },
    BuyPhaseBegan {
        lottery_id: u64,
        lottery: String,
        buy_start_unix: i64,
        buy_deadline_unix: i64,
        timestamp: i64,
    },
    AttestationSubmitted {
        lottery_id: u64,
        lottery: String,
        participant: String,
        wallet: String,
        voted_number_of_winners: u64,
        total_attested: u64,
        timestamp: i64,
    },
    RevealsUploaded {
        lottery_id: u64,
        lottery: String,
        authority: String,
        participants_count: u64,
        aggregate_hash: [u8; 32],
        selected_number_of_winners: u64,
        timestamp: i64,
    },
    RevealWindowAdjusted {
        lottery_id: u64,
        lottery: String,
        authority: String,
        old_start: i64,
        old_deadline: i64,
        new_start: i64,
        new_deadline: i64,
        timestamp: i64,
    },
    UploadPhaseBegan {
        lottery_id: u64,
        lottery: String,
        new_start: i64,
        new_deadline: i64,
        timestamp: i64,
    },
    SettlementPhaseBegan {
        lottery_id: u64,
        lottery: String,
        settlement_start_unix: i64,
        timestamp: i64,
    },
    LotterySettled {
        lottery_id: u64,
        lottery: String,
        vault: String,
        winner: String,
        winning_ticket_index: u64,
        total_tickets: u64,
        total_funds: u64,
        service_fee: u64,
        winner_payout: u64,
        selected_number_of_winners: u64,
        authority: String,
        timestamp: i64,
        winners: Vec<String>,
        per_winner_payout: u64,
    },
    WinnerSettled {
        lottery_id: u64,
        lottery: String,
        winner: String,
        amount: u64,
        timestamp: i64,
    },
    WinnersLuckyWords {
        lottery_id: u64,
        lottery: String,
        winners: Vec<WinnerLuckyWord>,
        timestamp: i64,
    },
    NoBuyersConcluded {
        lottery_id: u64,
        lottery: String,
        timestamp: i64,
    },
    RefundsIssued {
        lottery_id: u64,
        lottery: String,
        recipient_count: u64,
        total_refunded_lamports: u64,
        reason: String,
        timestamp: i64,
    },
    WinnersFinalized {
        lottery_id: u64,
        lottery: String,
        winners_count: u64,
        total_payout: u64,
        per_winner_payout: u64,
        winners_merkle_root: [u8; 32],
        winners: Vec<String>,
        timestamp: i64,
    },
    WinnerPaid {
        lottery_id: u64,
        lottery: String,
        winner: String,
        amount: u64,
        batch_index: u32,
        winner_index: u64,
        timestamp: i64,
    },
    PayoutsComplete {
        lottery_id: u64,
        lottery: String,
        total_winners: u64,
        total_paid: u64,
        batches_completed: u32,
        timestamp: i64,
    },
    ServiceFeePaid {
        lottery_id: u64,
        lottery: String,
        authority: String,
        service_fee: u64,
        remainder: u64,
        vault_rent_reclaimed: u64,
        timestamp: i64,
    },
    RevealReviewed {
        lottery_id: u64,
        lottery: String,
        voter: String,
        reveal_index: u64,
        ok: bool,
        reason: Option<String>,
        timestamp: i64,
    },
    WinnersAlgorithmInterlude {
        lottery_id: u64,
        lottery: String,
        report_id: String,
        seed: String,
        rule_version: String,
        total_uploaded: u64,
        total_reviewed: u64,
        eligible_count: u64,
        rejected_count: u64,
        counts_summary: Vec<(String, u64)>,
        preview: String,
        timestamp: i64,
    },
    WinnersComputed {
        lottery_id: u64,
        lottery: String,
        seed: String,
        rule_version: String,
        total_eligible: u64,
        winners: Vec<String>,
        timestamp: i64,
    },
}

impl LotteryEvent {
    /// The lottery an event concerns; `None` for the system-wide events.
    pub open spec fn spec_lottery_id(&self) -> Option<u64> {
        match self {
            LotteryEvent::SystemInitialized { .. } => None,
            LotteryEvent::ServiceChargeUpdated { .. } => None,
            LotteryEvent::WindowsUpdated { .. } => None,
            LotteryEvent::LotteryCreated { lottery_id, .. } => Some(*lottery_id),
            LotteryEvent::TicketsPurchased { lottery_id, .. } => Some(*lottery_id),
            LotteryEvent::BuyPhaseBegan { lottery_id, .. } => Some(*lottery_id),
            LotteryEvent::AttestationSubmitted { lottery_id, .. } => Some(*lottery_id),
            LotteryEvent::RevealsUploaded { lottery_id, .. } => Some(*lottery_id),
            LotteryEvent::RevealWindowAdjusted { lottery_id, .. } => Some(*lottery_id),
            LotteryEvent::UploadPhaseBegan { lottery_id, .. } => Some(*lottery_id),
            LotteryEvent::SettlementPhaseBegan { lottery_id, .. } => Some(*lottery_id),
            LotteryEvent::LotterySettled { lottery_id, .. } => Some(*lottery_id),
            LotteryEvent::WinnerSettled { lottery_id, .. } => Some(*lottery_id),
            LotteryEvent::WinnersLuckyWords { lottery_id, .. } => Some(*lottery_id),
            LotteryEvent::NoBuyersConcluded { lottery_id, .. } => Some(*lottery_id),
            LotteryEvent::RefundsIssued { lottery_id, .. } => Some(*lottery_id),
            LotteryEvent::WinnersFinalized { lottery_id, .. } => Some(*lottery_id),
            LotteryEvent::WinnerPaid { lottery_id, .. } => Some(*lottery_id),
            LotteryEvent::PayoutsComplete { lottery_id, .. } => Some(*lottery_id),
            LotteryEvent::ServiceFeePaid { lottery_id, .. } => Some(*lottery_id),
            LotteryEvent::RevealReviewed { lottery_id, .. } => Some(*lottery_id),
            LotteryEvent::WinnersAlgorithmInterlude { lottery_id, .. } => Some(*lottery_id),
            LotteryEvent::WinnersComputed { lottery_id, .. } => Some(*lottery_id),
        }
    }

    /// When an event happened (for a created lottery, its creation time).
    pub open spec fn spec_timestamp(&self) -> i64 {
        match self {
            LotteryEvent::SystemInitialized { timestamp, .. } => *timestamp,
            LotteryEvent::ServiceChargeUpdated { timestamp, .. } => *timestamp,
            LotteryEvent::WindowsUpdated { timestamp, .. } => *timestamp,
            LotteryEvent::LotteryCreated { created_at_unix, .. } => *created_at_unix,
            LotteryEvent::TicketsPurchased { timestamp, .. } => *timestamp,
            LotteryEvent::BuyPhaseBegan { timestamp, .. } => *timestamp,
            LotteryEvent::AttestationSubmitted { timestamp, .. } => *timestamp,
            LotteryEvent::RevealsUploaded { timestamp, .. } => *timestamp,
            LotteryEvent::RevealWindowAdjusted { timestamp, .. } => *timestamp,
            LotteryEvent::UploadPhaseBegan { timestamp, .. } => *timestamp,
            LotteryEvent::SettlementPhaseBegan { timestamp, .. } => *timestamp,
            LotteryEvent::LotterySettled { timestamp, .. } => *timestamp,
            LotteryEvent::WinnerSettled { timestamp, .. } => *timestamp,
            LotteryEvent::WinnersLuckyWords { timestamp, .. } => *timestamp,
            LotteryEvent::NoBuyersConcluded { timestamp, .. } => *timestamp,
            LotteryEvent::RefundsIssued { timestamp, .. } => *timestamp,
            LotteryEvent::WinnersFinalized { timestamp, .. } => *timestamp,
            LotteryEvent::WinnerPaid { timestamp, .. } => *timestamp,
            LotteryEvent::PayoutsComplete { timestamp, .. } => *timestamp,
            LotteryEvent::ServiceFeePaid { timestamp, .. } => *timestamp,
            LotteryEvent::RevealReviewed { timestamp, .. } => *timestamp,
            LotteryEvent::WinnersAlgorithmInterlude { timestamp, .. } => *timestamp,
            LotteryEvent::WinnersComputed { timestamp, .. } => *timestamp,
        }
    }

    /// The lottery id of the event, when it has one.
    pub fn lottery_id(&self) -> (r: Option<u64>)
        ensures
            r == self.spec_lottery_id(),
    {
        match self {
            LotteryEvent::SystemInitialized { .. } => None,
            LotteryEvent::ServiceChargeUpdated { .. } => None,
            LotteryEvent::WindowsUpdated { .. } => None,
            LotteryEvent::LotteryCreated { lottery_id, .. } => Some(*lottery_id),
            LotteryEvent::TicketsPurchased { lottery_id, .. } => Some(*lottery_id),
            LotteryEvent::BuyPhaseBegan { lottery_id, .. } => Some(*lottery_id),
            LotteryEvent::AttestationSubmitted { lottery_id, .. } => Some(*lottery_id),
            LotteryEvent::RevealsUploaded { lottery_id, .. } => Some(*lottery_id),
            LotteryEvent::RevealWindowAdjusted { lottery_id, .. } => Some(*lottery_id),
            LotteryEvent::UploadPhaseBegan { lottery_id, .. } => Some(*lottery_id),
            LotteryEvent::SettlementPhaseBegan { lottery_id, .. } => Some(*lottery_id),
            LotteryEvent::LotterySettled { lottery_id, .. } => Some(*lottery_id),
            LotteryEvent::WinnerSettled { lottery_id, .. } => Some(*lottery_id),
            LotteryEvent::WinnersLuckyWords { lottery_id, .. } => Some(*lottery_id),
            LotteryEvent::NoBuyersConcluded { lottery_id, .. } => Some(*lottery_id),
            LotteryEvent::RefundsIssued { lottery_id, .. } => Some(*lottery_id),
            LotteryEvent::WinnersFinalized { lottery_id, .. } => Some(*lottery_id),
            LotteryEvent::WinnerPaid { lottery_id, .. } => Some(*lottery_id),
            LotteryEvent::PayoutsComplete { lottery_id, .. } => Some(*lottery_id),
            LotteryEvent::ServiceFeePaid { lottery_id, .. } => Some(*lottery_id),
            LotteryEvent::RevealReviewed { lottery_id, .. } => Some(*lottery_id),
            LotteryEvent::WinnersAlgorithmInterlude { lottery_id, .. } => Some(*lottery_id),
            LotteryEvent::WinnersComputed { lottery_id, .. } => Some(*lottery_id),
        }
    }

    /// The time of the event.
    pub fn timestamp(&self) -> (r: i64)
        ensures
            r == self.spec_timestamp(),
    {
        match self {
            LotteryEvent::SystemInitialized { timestamp, .. } => *timestamp,
            LotteryEvent::ServiceChargeUpdated { timestamp, .. } => *timestamp,
            LotteryEvent::WindowsUpdated { timestamp, .. } => *timestamp,
            LotteryEvent::LotteryCreated { created_at_unix, .. } => *created_at_unix,
            LotteryEvent::TicketsPurchased { timestamp, .. } => *timestamp,
            LotteryEvent::BuyPhaseBegan { timestamp, .. } => *timestamp,
            LotteryEvent::AttestationSubmitted { timestamp, .. } => *timestamp,
            LotteryEvent::RevealsUploaded { timestamp, .. } => *timestamp,
            LotteryEvent::RevealWindowAdjusted { timestamp, .. } => *timestamp,
            LotteryEvent::UploadPhaseBegan { timestamp, .. } => *timestamp,
            LotteryEvent::SettlementPhaseBegan { timestamp, .. } => *timestamp,
            LotteryEvent::LotterySettled { timestamp, .. } => *timestamp,
            LotteryEvent::WinnerSettled { timestamp, .. } => *timestamp,
            LotteryEvent::WinnersLuckyWords { timestamp, .. } => *timestamp,
            LotteryEvent::NoBuyersConcluded { timestamp, .. } => *timestamp,
            LotteryEvent::RefundsIssued { timestamp, .. } => *timestamp,
            LotteryEvent::WinnersFinalized { timestamp, .. } => *timestamp,
            LotteryEvent::WinnerPaid { timestamp, .. } => *timestamp,
            LotteryEvent::PayoutsComplete { timestamp, .. } => *timestamp,
            LotteryEvent::ServiceFeePaid { timestamp, .. } => *timestamp,
            LotteryEvent::RevealReviewed { timestamp, .. } => *timestamp,
            LotteryEvent::WinnersAlgorithmInterlude { timestamp, .. } => *timestamp,
            LotteryEvent::WinnersComputed { timestamp, .. } => *timestamp,
        }
    }
}

} // verus!
