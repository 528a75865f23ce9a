//! Error values returned by the lottery program.
use vstd::prelude::*;

verus! {

/// Errors returned by lottery operations.  `code` gives the stable numeric
/// code that the program reports for each of them.
#[derive(Debug, Copy, Clone, PartialEq, Eq, Structural)]
pub enum Error {
    InvalidInstruction,
    MathOverflow,
    InsufficientFunds,
    Unauthorized,
    InvalidLotteryState,
    InvalidUploadWindow,
    InvalidAttestation,
    InvalidUploads,
    AlreadySettled,
    NoActiveLottery,
    ActiveLotteryExists,
    AlreadyAttested,
    ProofHashMismatch,
    OutsideTimeWindow,
    InvalidAccountData,
    MissingAccount,
    IncorrectOwner,
    InvalidSeeds,
    InvalidServiceCharge,
    InvalidTicketCount,
    WinnerSelectionFailed,
    LotteryAlreadySettled,
    WinnerNotFound,
    RevealMismatch,
    MissingProofOfChance,
    LotteryNotSettled,
    LotteryAlreadyActive,
    AttestationAlreadySubmitted,
    InvalidTimeWindow,
    NoAttestedParticipants,
    WinnerAlreadyPaid,
    InvalidMerkleProof,
    InvalidAccount,
    InvalidPhaseTransition,
    RefundUnavailable,
    RefundAlreadyClaimed,
}

/// Result type of the lottery's operations.
pub type ProgramResult<T = ()> = Result<T, Error>;

impl Error {
    /// The numeric code of each error: its position in the declaration.
    pub open spec fn spec_code(&self) -> u32 {
        match self {
            Error::InvalidInstruction => 0,
            Error::MathOverflow => 1,
            Error::InsufficientFunds => 2,
            Error::Unauthorized => 3,
            Error::InvalidLotteryState => 4,
            Error::InvalidUploadWindow => 5,
            Error::InvalidAttestation => 6,
            Error::InvalidUploads => 7,
            Error::AlreadySettled => 8,
            Error::NoActiveLottery => 9,
            Error::ActiveLotteryExists => 10,
            Error::AlreadyAttested => 11,
            Error::ProofHashMismatch => 12,
            Error::OutsideTimeWindow => 13,
            Error::InvalidAccountData => 14,
            Error::MissingAccount => 15,
            Error::IncorrectOwner => 16,
            Error::InvalidSeeds => 17,
            Error::InvalidServiceCharge => 18,
            Error::InvalidTicketCount => 19,
            Error::WinnerSelectionFailed => 20,
            Error::LotteryAlreadySettled => 21,
            Error::WinnerNotFound => 22,
            Error::RevealMismatch => 23,
            Error::MissingProofOfChance => 24,
            Error::LotteryNotSettled => 25,
            Error::LotteryAlreadyActive => 26,
            Error::AttestationAlreadySubmitted => 27,
            Error::InvalidTimeWindow => 28,
            Error::NoAttestedParticipants => 29,
            Error::WinnerAlreadyPaid => 30,
            Error::InvalidMerkleProof => 31,
            Error::InvalidAccount => 32,
            Error::InvalidPhaseTransition => 33,
            Error::RefundUnavailable => 34,
            Error::RefundAlreadyClaimed => 35,
        }
    }

    /// The error's numeric code, reported as a custom program error.
    #[verifier::when_used_as_spec(spec_code)]
    pub fn code(&self) -> (c: u32)
        ensures
            c == self.spec_code(),
            c < 36,
    {
        match self {
            Error::InvalidInstruction => 0,
            Error::MathOverflow => 1,
            Error::InsufficientFunds => 2,
            Error::Unauthorized => 3,
            Error::InvalidLotteryState => 4,
            Error::InvalidUploadWindow => 5,
            Error::InvalidAttestation => 6,
            Error::InvalidUploads => 7,
            Error::AlreadySettled => 8,
            Error::NoActiveLottery => 9,
            Error::ActiveLotteryExists => 10,
            Error::AlreadyAttested => 11,
            Error::ProofHashMismatch => 12,
            Error::OutsideTimeWindow => 13,
            Error::InvalidAccountData => 14,
            Error::MissingAccount => 15,
            Error::IncorrectOwner => 16,
            Error::InvalidSeeds => 17,
            Error::InvalidServiceCharge => 18,
            Error::InvalidTicketCount => 19,
            Error::WinnerSelectionFailed => 20,
            Error::LotteryAlreadySettled => 21,
            Error::WinnerNotFound => 22,
            Error::RevealMismatch => 23,
            Error::MissingProofOfChance => 24,
            Error::LotteryNotSettled => 25,
            Error::LotteryAlreadyActive => 26,
            Error::AttestationAlreadySubmitted => 27,
            Error::InvalidTimeWindow => 28,
            Error::NoAttestedParticipants => 29,
            Error::WinnerAlreadyPaid => 30,
            Error::InvalidMerkleProof => 31,
            Error::InvalidAccount => 32,
            Error::InvalidPhaseTransition => 33,
            Error::RefundUnavailable => 34,
            Error::RefundAlreadyClaimed => 35,
        }
    }
}

/// The error's numeric code (see `Error::code`).
impl From<Error> for u32 {
    fn from(e: Error) -> (r: u32) {
        e.code()
    }
}

impl vstd::std_specs::convert::FromSpecImpl<Error> for u32 {
    open spec fn obeys_from_spec() -> bool {
        true
    }

    open spec fn from_spec(e: Error) -> u32 {
        e.spec_code()
    }
}

/// Distinct errors have distinct codes, so a reported code names exactly one
/// error: `u32::from(a) == u32::from(b)` only when `a == b`.
pub proof fn lemma_error_codes_unique(a: Error, b: Error)
    ensures
        a.spec_code() == b.spec_code() ==> a == b,
        <u32 as vstd::std_specs::convert::FromSpec<Error>>::from_spec(a)
            == <u32 as vstd::std_specs::convert::FromSpec<Error>>::from_spec(b) ==> a == b,
{
}

} // verus!
