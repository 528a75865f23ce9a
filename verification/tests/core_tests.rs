use daily_lottery::error::Error;
use daily_lottery::events::LotteryEvent;
use daily_lottery::state::Config;

#[test]
fn test_error_codes_unique() {
    let errors = [
        Error::InvalidInstruction,
        Error::MathOverflow,
        Error::InsufficientFunds,
        Error::Unauthorized,
        Error::InvalidLotteryState,
        Error::InvalidUploadWindow,
        Error::InvalidAttestation,
        Error::InvalidUploads,
        Error::AlreadySettled,
        Error::NoActiveLottery,
        Error::ActiveLotteryExists,
        Error::AlreadyAttested,
        Error::ProofHashMismatch,
        Error::OutsideTimeWindow,
        Error::InvalidAccountData,
        Error::MissingAccount,
        Error::IncorrectOwner,
        Error::InvalidSeeds,
        Error::InvalidServiceCharge,
        Error::InvalidTicketCount,
        Error::WinnerSelectionFailed,
        Error::LotteryAlreadySettled,
        Error::WinnerNotFound,
        Error::RevealMismatch,
        Error::MissingProofOfChance,
        Error::LotteryNotSettled,
        Error::LotteryAlreadyActive,
        Error::AttestationAlreadySubmitted,
        Error::InvalidTimeWindow,
        Error::NoAttestedParticipants,
        Error::WinnerAlreadyPaid,
        Error::InvalidMerkleProof,
        Error::InvalidAccount,
        Error::InvalidPhaseTransition,
    ];

    let mut codes: Vec<u32> = errors.iter().map(|e| *e as u32).collect();
    codes.sort();
    codes.dedup();

    assert_eq!(codes.len(), errors.len(), "Duplicate error codes found");
}

#[test]
fn error_code_matches_declaration_order() {
    assert_eq!(Error::InvalidInstruction.code(), 0);
    assert_eq!(Error::InvalidSeeds.code(), Error::InvalidSeeds as u32);
    assert_eq!(Error::InvalidPhaseTransition.code(), 33);
}

#[test]
fn test_lottery_id_extraction() {
    let event = LotteryEvent::TicketsPurchased {
        lottery_id: 42,
        lottery: "11111111111111111111111111111111".to_string(),
        participant: "11111111111111111111111111111111".to_string(),
        buyer: "11111111111111111111111111111111".to_string(),
        tickets_bought: 5,
        total_tickets_for_participant: 10,
        total_tickets_for_lottery: 100,
        amount_paid: 5000,
        total_funds: 50000,
        proof_of_chance_hash: None,
        timestamp: 1640995200,
    };

    assert_eq!(event.lottery_id(), Some(42));
    assert_eq!(event.timestamp(), 1640995200);
}

#[test]
fn event_without_lottery_has_no_id() {
    let event = LotteryEvent::ServiceChargeUpdated {
        config: "c".to_string(),
        old_bps: 1,
        new_bps: 2,
        authority: "a".to_string(),
        timestamp: 7,
    };
    assert_eq!(event.lottery_id(), None);
    assert_eq!(event.timestamp(), 7);
}

#[test]
fn test_validate_parameters() {
    assert!(Config::validate_service_charge(0));
    assert!(Config::validate_service_charge(500));
    assert!(Config::validate_service_charge(9999));
    assert!(!Config::validate_service_charge(10000));
    assert!(!Config::validate_service_charge(15000));
}

#[test]
fn error_converts_to_its_code() {
    assert_eq!(u32::from(Error::InvalidInstruction), 0);
    assert_eq!(u32::from(Error::InvalidTicketCount), 19);
    assert_eq!(u32::from(Error::InvalidPhaseTransition), 33);
    assert_eq!(u32::from(Error::WinnerAlreadyPaid), Error::WinnerAlreadyPaid.code());
}
