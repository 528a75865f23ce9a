//! Instructions of the lottery program: their wire format and, per
//! instruction, the decisions that the program makes on the accounts'
//! state.
//!
//! Instruction data starts with a one-byte tag; the fields follow as
//! little-endian integers, and lists and byte strings follow the Borsh
//! encoding.
use vstd::prelude::*;
use crate::address::Address;
use crate::error::Error;
use crate::utils::bytes::{le_value, read_le, lemma_pow256_values};
use crate::instructions::settle_payout_batch::WinnerProof;

pub mod begin_buy_phase;
pub mod begin_reveal_phase;
pub mod begin_settlement_phase;
pub mod attest_reveal;
pub mod attest_uploaded;
pub mod begin_upload_phase;
pub mod buy_tickets;
pub mod claim_refund;
pub mod create_lottery;
pub mod finalize_no_attesters;
pub mod finalize_winners;
pub mod initialize;
pub mod settle_payout_batch;
pub mod update_service_charge;
pub mod update_windows;
pub mod upload_reveals;
pub mod wire;

verus! {

pub const TAG_INITIALIZE: u8 = 0;

pub const TAG_UPDATE_SERVICE_CHARGE: u8 = 1;

pub const TAG_CREATE_LOTTERY: u8 = 2;

pub const TAG_BUY_TICKETS: u8 = 3;

pub const TAG_ATTEST_UPLOADED: u8 = 4;

pub const TAG_UPLOAD_REVEALS: u8 = 5;

pub const TAG_BEGIN_REVEAL_NOW: u8 = 6;

pub const TAG_FINALIZE_WINNERS: u8 = 7;

pub const TAG_BEGIN_REVEAL_PHASE: u8 = 8;

pub const TAG_FINALIZE_NO_ATTESTERS: u8 = 9;

pub const TAG_SETTLE_PAYOUT_BATCH: u8 = 10;

/// Tag of a participant's own reveal: the vote (8 bytes), then the
/// plaintext as a Borsh byte string (4-byte length, then the bytes).
pub const TAG_ATTEST_REVEAL: u8 = 14;

pub const TAG_CLAIM_REFUND: u8 = 15;

pub const TAG_CLOSE_PARTICIPANT: u8 = 16;

pub const TAG_CLOSE_REFUND_VAULT: u8 = 17;

/// The instructions of the lottery program, with their parameters.
#[derive(Debug, Clone)]
pub enum Instruction {
    /// Creates the config: ticket price, service charge (basis points below
    /// 10_000) and winners cap.
    Initialize { ticket_price_lamports: u64, service_charge_bps: u16, max_winners_cap: u32 },
    /// Changes the service charge.
    UpdateServiceCharge { new_bps: u16 },
    /// Creates the next lottery and its vault.
    CreateLottery,
    /// Buys tickets; the first purchase must carry the commitment hash.
    BuyTickets { proof_of_chance_hash: Option<[u8; 32]>, number_of_tickets: u64 },
    /// Attests the off-chain reveal upload and votes for the winner count.
    AttestUploaded { voted_number_of_winners: u64 },
    /// Uploads (participant, reveal plaintext) pairs.
    UploadReveals { entries: Vec<(Address, Vec<u8>)> },
    /// Opens or extends the upload window now, with optional durations.
    BeginRevealNow { attestation_secs: u32, upload_secs: u32 },
    /// Runs one chunk of winner finalization.
    FinalizeWinners,
    /// Opens the upload window now with the default durations.
    BeginRevealPhase,
    /// Settles a lottery without attestations or reveals as a refund.
    FinalizeNoAttesters,
    /// Pays a batch of winners.
    SettlePayoutBatch { lottery_id: u64, batch_index: u32, winners: Vec<WinnerProof> },
    /// Retired; no longer accepted.
    SettlementBegin,
    /// Retired; no longer accepted.
    SettlementChunk,
    /// Retired; no longer accepted.
    SettlementFinalize,
    /// Attests and reveals in one step, without the provider.
    AttestReveal { voted_number_of_winners: u64, reveal_plaintext: Vec<u8> },
    /// Pays a participant's refund from a lottery settled without winners.
    ClaimRefund,
    /// Closes a participant account that is no longer needed.
    CloseParticipant,
    /// Closes the vault of a refund lottery once every refund was paid.
    CloseRefundVault,
}

/// The error of the checks that the phase instructions make first: the
/// lottery account must sit at the address derived from its config and id
/// (`InvalidAccountData`; `InvalidSeeds` when no address derives), the signer must be the config's authority
/// (`Unauthorized`), and the lottery must not be settled
/// (`LotteryAlreadySettled`).
pub open spec fn lottery_authority_error(
    program_id: Address,
    lottery_key: Address,
    lottery: crate::state::lottery::Lottery,
    config: crate::state::config::Config,
    signer: Address,
) -> Option<Error> {
    let seeds = crate::utils::pda::lottery_seeds(lottery.config.bytes@, lottery.id);
    if crate::utils::pda::program_address(seeds, program_id.bytes@) is None {
        Some(Error::InvalidSeeds)
    } else if !crate::utils::pda::derives_to(seeds, program_id.bytes@, lottery_key.bytes@) {
        Some(Error::InvalidAccountData)
    } else if signer.bytes@ != config.authority.bytes@ {
        Some(Error::Unauthorized)
    } else if lottery.settled {
        Some(Error::LotteryAlreadySettled)
    } else {
        None
    }
}

/// Makes the checks of `lottery_authority_error`.
pub fn check_lottery_authority(
    program_id: &Address,
    lottery_key: &Address,
    lottery: &crate::state::lottery::Lottery,
    config: &crate::state::config::Config,
    signer: &Address,
) -> (r: Result<(), Error>)
    ensures
        r == match lottery_authority_error(*program_id, *lottery_key, *lottery, *config, *signer) {
            Some(e) => Err::<(), Error>(e),
            None => Ok(()),
        },
{
    let (expected_lottery, _bump) = crate::utils::pda::derive_lottery_pda(program_id, &lottery.config, lottery.id)?;
    crate::utils::validation::require_key_match(lottery_key, &expected_lottery)?;
    if !signer.equals(&config.authority) {
        return Err(Error::Unauthorized);
    }
    if lottery.settled {
        return Err(Error::LotteryAlreadySettled);
    }
    Ok(())
}

/// The `n`-byte little-endian integer at `off` of `data`.
pub open spec fn le_at(data: Seq<u8>, off: int, n: int) -> nat {
    le_value(data.subrange(off, off + n))
}

/// The first `n` entries of a Borsh-encoded list of address / byte-string
/// pairs at the front of `data`, and the bytes after them: each entry is 32
/// address bytes, a 4-byte little-endian length and that many bytes.
/// `None` when the bytes run out.
pub open spec fn reveal_entries_prefix(data: Seq<u8>, n: nat) -> Option<(Seq<(Seq<u8>, Seq<u8>)>, Seq<u8>)>
    decreases n,
{
    if n == 0 {
        Some((Seq::empty(), data))
    } else {
        match reveal_entries_prefix(data, (n - 1) as nat) {
            None => None,
            Some((es, rest)) => if rest.len() < 36 {
                None
            } else {
                let m = le_value(rest.subrange(32, 36));
                if rest.len() < 36 + m {
                    None
                } else {
                    Some(
                        (
                            es.push((rest.subrange(0, 32), rest.subrange(36, 36 + m as int))),
                            rest.subrange(36 + m as int, rest.len() as int),
                        ),
                    )
                }
            },
        }
    }
}

/// The list that Borsh decodes from `data` as `Vec<([u8; 32], Vec<u8>)>`:
/// a 4-byte little-endian count, then that many entries
/// (`reveal_entries_prefix`), with every byte of `data` consumed; `None`
/// when it does not decode.
pub open spec fn borsh_reveal_entries(data: Seq<u8>) -> Option<Seq<(Seq<u8>, Seq<u8>)>> {
    if data.len() < 4 {
        None
    } else {
        match reveal_entries_prefix(data.subrange(4, data.len() as int), le_value(data.subrange(0, 4))) {
            Some((es, rest)) => if rest.len() == 0 {
                Some(es)
            } else {
                None
            },
            None => None,
        }
    }
}

/// The 32-byte hashes of a Borsh-encoded `[[u8; 32]]` of `m` elements at
/// the front of `data`.
pub open spec fn hashes_at(data: Seq<u8>, m: nat) -> Seq<Seq<u8>> {
    Seq::new(m, |k: int| data.subrange(32 * k, 32 * k + 32))
}

/// The first `n` winner proofs of a Borsh-encoded list at the front of
/// `data`, and the bytes after them: each is an 8-byte index, 32 address
/// bytes, an 8-byte amount (little-endian), a 4-byte count and that many
/// 32-byte hashes.  `None` when the bytes run out.
pub open spec fn winner_proofs_prefix(data: Seq<u8>, n: nat) -> Option<
    (Seq<(u64, Seq<u8>, u64, Seq<Seq<u8>>)>, Seq<u8>),
>
    decreases n,
{
    if n == 0 {
        Some((Seq::empty(), data))
    } else {
        match winner_proofs_prefix(data, (n - 1) as nat) {
            None => None,
            Some((ws, rest)) => if rest.len() < 52 {
                None
            } else {
                let m = le_value(rest.subrange(48, 52));
                if rest.len() < 52 + 32 * m {
                    None
                } else {
                    Some(
                        (
                            ws.push(
                                (
                                    le_value(rest.subrange(0, 8)) as u64,
                                    rest.subrange(8, 40),
                                    le_value(rest.subrange(40, 48)) as u64,
                                    hashes_at(rest.subrange(52, rest.len() as int), m),
                                ),
                            ),
                            rest.subrange(52 + 32 * m as int, rest.len() as int),
                        ),
                    )
                }
            },
        }
    }
}

/// The list that Borsh decodes from `data` as
/// `Vec<(u64, [u8; 32], u64, Vec<[u8; 32]>)>`: a 4-byte little-endian
/// count, then that many proofs (`winner_proofs_prefix`), with every byte
/// consumed; `None` when it does not decode.
pub open spec fn borsh_winner_proofs(data: Seq<u8>) -> Option<Seq<(u64, Seq<u8>, u64, Seq<Seq<u8>>)>> {
    if data.len() < 4 {
        None
    } else {
        match winner_proofs_prefix(data.subrange(4, data.len() as int), le_value(data.subrange(0, 4))) {
            Some((ws, rest)) => if rest.len() == 0 {
                Some(ws)
            } else {
                None
            },
            None => None,
        }
    }
}

/// Byte views of decoded reveal entries.
pub open spec fn reveal_entries_view(v: Seq<([u8; 32], Vec<u8>)>) -> Seq<(Seq<u8>, Seq<u8>)> {
    v.map_values(|e: ([u8; 32], Vec<u8>)| (e.0@, e.1@))
}

/// Views of decoded winner proofs.
pub open spec fn winner_proofs_view(v: Seq<(u64, [u8; 32], u64, Vec<[u8; 32]>)>) -> Seq<
    (u64, Seq<u8>, u64, Seq<Seq<u8>>),
> {
    v.map_values(
        |e: (u64, [u8; 32], u64, Vec<[u8; 32]>)|
            (e.0, e.1@, e.2, e.3@.map_values(|h: [u8; 32]| h@)),
    )
}

/// Calls `borsh::BorshDeserialize::try_from_slice` for
/// `Vec<([u8; 32], Vec<u8>)>`.  The contract claims that it decodes the
/// Borsh format of that type (`borsh_reveal_entries`) and fails when the
/// bytes do not follow it or are not all consumed.
#[verifier::external_body]
fn decode_reveal_entries(data: &[u8]) -> (r: Option<Vec<([u8; 32], Vec<u8>)>>)
    ensures
        r is None <==> borsh_reveal_entries(data@) is None,
        r is Some ==> borsh_reveal_entries(data@) == Some(reveal_entries_view(r->0@)),
{
    <Vec<([u8; 32], Vec<u8>)> as borsh::BorshDeserialize>::try_from_slice(data).ok()
}

/// Calls `borsh::BorshDeserialize::try_from_slice` for
/// `Vec<(u64, [u8; 32], u64, Vec<[u8; 32]>)>`.  The contract claims that it
/// decodes the Borsh format of that type (`borsh_winner_proofs`) and fails
/// when the bytes do not follow it or are not all consumed.
#[verifier::external_body]
fn decode_winner_proofs(data: &[u8]) -> (r: Option<Vec<(u64, [u8; 32], u64, Vec<[u8; 32]>)>>)
    ensures
        r is None <==> borsh_winner_proofs(data@) is None,
        r is Some ==> borsh_winner_proofs(data@) == Some(winner_proofs_view(r->0@)),
{
    <Vec<(u64, [u8; 32], u64, Vec<[u8; 32]>)> as borsh::BorshDeserialize>::try_from_slice(data).ok()
}

/// Whether the decoded reveal entries match the raw list.
pub open spec fn reveal_entries_match(entries: Seq<(Address, Vec<u8>)>, raw: Seq<(Seq<u8>, Seq<u8>)>) -> bool {
    &&& entries.len() == raw.len()
    &&& forall|i: int|
        0 <= i < entries.len() ==> (#[trigger] entries[i]).0.bytes@ == raw[i].0 && entries[i].1@ == raw[i].1
}

/// Whether the decoded winner proofs match the raw list.
pub open spec fn winner_proofs_match(winners: Seq<WinnerProof>, raw: Seq<(u64, Seq<u8>, u64, Seq<Seq<u8>>)>) -> bool {
    &&& winners.len() == raw.len()
    &&& forall|i: int|
        0 <= i < winners.len() ==> {
            &&& (#[trigger] winners[i]).index == raw[i].0
            &&& winners[i].recipient.bytes@ == raw[i].1
            &&& winners[i].amount == raw[i].2
            &&& winners[i].merkle_proof@.map_values(|h: [u8; 32]| h@) == raw[i].3
        }
}

fn slice_from(data: &[u8], start: usize) -> (r: Vec<u8>)
    requires
        start <= data@.len(),
    ensures
        r@ == data@.subrange(start as int, data@.len() as int),
{
    let mut out: Vec<u8> = Vec::new();
    let mut i: usize = start;
    while i < data.len()
        invariant
            start <= i <= data@.len(),
            out@ == data@.subrange(start as int, i as int),
        decreases data@.len() - i,
    {
        out.push(data[i]);
        i = i + 1;
        proof {
            assert(out@ =~= data@.subrange(start as int, i as int));
        }
    }
    out
}

fn reveal_entries_from(raw: Vec<([u8; 32], Vec<u8>)>) -> (r: Vec<(Address, Vec<u8>)>)
    ensures
        reveal_entries_match(r@, reveal_entries_view(raw@)),
{
    let mut out: Vec<(Address, Vec<u8>)> = Vec::new();
    let mut i: usize = 0;
    while i < raw.len()
        invariant
            i <= raw@.len(),
            out@.len() == i,
            forall|j: int|
                0 <= j < i ==> (#[trigger] out@[j]).0.bytes@ == raw@[j].0@ && out@[j].1@ == raw@[j].1@,
        decreases raw@.len() - i,
    {
        let key: [u8; 32] = raw[i].0;
        let text: Vec<u8> = raw[i].1.clone();
        out.push((Address { bytes: key }, text));
        i = i + 1;
    }
    out
}

fn hash_list_from(raw: &Vec<[u8; 32]>) -> (r: Vec<[u8; 32]>)
    ensures
        r@ == raw@,
{
    let mut out: Vec<[u8; 32]> = Vec::new();
    let mut i: usize = 0;
    while i < raw.len()
        invariant
            i <= raw@.len(),
            out@ == raw@.subrange(0, i as int),
        decreases raw@.len() - i,
    {
        out.push(raw[i]);
        i = i + 1;
        proof {
            assert(out@ =~= raw@.subrange(0, i as int));
        }
    }
    proof {
        assert(out@ =~= raw@);
    }
    out
}

fn winner_proofs_from(raw: Vec<(u64, [u8; 32], u64, Vec<[u8; 32]>)>) -> (r: Vec<WinnerProof>)
    ensures
        winner_proofs_match(r@, winner_proofs_view(raw@)),
{
    let mut out: Vec<WinnerProof> = Vec::new();
    let mut i: usize = 0;
    while i < raw.len()
        invariant
            i <= raw@.len(),
            out@.len() == i,
            forall|j: int|
                0 <= j < i ==> {
                    &&& (#[trigger] out@[j]).index == raw@[j].0
                    &&& out@[j].recipient.bytes@ == raw@[j].1@
                    &&& out@[j].amount == raw@[j].2
                    &&& out@[j].merkle_proof@ == raw@[j].3@
                },
        decreases raw@.len() - i,
    {
        let proof_list = hash_list_from(&raw[i].3);
        out.push(
            WinnerProof {
                index: raw[i].0,
                recipient: Address { bytes: raw[i].1 },
                amount: raw[i].2,
                merkle_proof: proof_list,
            },
        );
        i = i + 1;
    }
    out
}

/// What `decode_instruction` returns for the given data.
pub open spec fn decode_ok(data: Seq<u8>, r: Result<Instruction, Error>) -> bool {
    if data.len() == 0 {
        r == Err::<Instruction, Error>(Error::InvalidInstruction)
    } else if data[0] == TAG_INITIALIZE {
        if data.len() < 15 {
            r == Err::<Instruction, Error>(Error::InvalidInstruction)
        } else {
            r == Ok::<Instruction, Error>(
                Instruction::Initialize {
                    ticket_price_lamports: le_at(data, 1, 8) as u64,
                    service_charge_bps: le_at(data, 9, 2) as u16,
                    max_winners_cap: le_at(data, 11, 4) as u32,
                },
            )
        }
    } else if data[0] == TAG_UPDATE_SERVICE_CHARGE {
        if data.len() < 3 {
            r == Err::<Instruction, Error>(Error::InvalidInstruction)
        } else {
            r == Ok::<Instruction, Error>(Instruction::UpdateServiceCharge { new_bps: le_at(data, 1, 2) as u16 })
        }
    } else if data[0] == TAG_CREATE_LOTTERY {
        r == Ok::<Instruction, Error>(Instruction::CreateLottery)
    } else if data[0] == TAG_BUY_TICKETS {
        if data.len() < 10 {
            r == Err::<Instruction, Error>(Error::InvalidInstruction)
        } else if data[1] != 0 {
            if data.len() < 42 {
                r == Err::<Instruction, Error>(Error::InvalidInstruction)
            } else {
                r matches Ok(Instruction::BuyTickets { proof_of_chance_hash: Some(h), number_of_tickets })
                    && h@ == data.subrange(2, 34) && number_of_tickets == le_at(data, 34, 8)
            }
        } else {
            r == Ok::<Instruction, Error>(
                Instruction::BuyTickets {
                    proof_of_chance_hash: None,
                    number_of_tickets: le_at(data, 2, 8) as u64,
                },
            )
        }
    } else if data[0] == TAG_ATTEST_UPLOADED {
        if data.len() < 9 {
            r == Err::<Instruction, Error>(Error::InvalidInstruction)
        } else {
            r == Ok::<Instruction, Error>(
                Instruction::AttestUploaded { voted_number_of_winners: le_at(data, 1, 8) as u64 },
            )
        }
    } else if data[0] == TAG_UPLOAD_REVEALS {
        if data.len() < 5 {
            r == Err::<Instruction, Error>(Error::InvalidInstruction)
        } else {
            match borsh_reveal_entries(data.subrange(1, data.len() as int)) {
                None => r == Err::<Instruction, Error>(Error::InvalidInstruction),
                Some(raw) => r matches Ok(Instruction::UploadReveals { entries })
                    && reveal_entries_match(entries@, raw),
            }
        }
    } else if data[0] == TAG_BEGIN_REVEAL_NOW {
        if data.len() < 9 {
            r == Err::<Instruction, Error>(Error::InvalidInstruction)
        } else {
            r == Ok::<Instruction, Error>(
                Instruction::BeginRevealNow {
                    attestation_secs: le_at(data, 1, 4) as u32,
                    upload_secs: le_at(data, 5, 4) as u32,
                },
            )
        }
    } else if data[0] == TAG_FINALIZE_WINNERS {
        r == Ok::<Instruction, Error>(Instruction::FinalizeWinners)
    } else if data[0] == TAG_SETTLE_PAYOUT_BATCH {
        if data.len() < 13 {
            r == Err::<Instruction, Error>(Error::InvalidInstruction)
        } else {
            match borsh_winner_proofs(data.subrange(13, data.len() as int)) {
                None => r == Err::<Instruction, Error>(Error::InvalidInstruction),
                Some(raw) => r matches Ok(Instruction::SettlePayoutBatch { lottery_id, batch_index, winners })
                    && lottery_id == le_at(data, 1, 8) && batch_index == le_at(data, 9, 4)
                    && winner_proofs_match(winners@, raw),
            }
        }
    } else if data[0] == TAG_BEGIN_REVEAL_PHASE {
        r == Ok::<Instruction, Error>(Instruction::BeginRevealPhase)
    } else if data[0] == TAG_FINALIZE_NO_ATTESTERS {
        r == Ok::<Instruction, Error>(Instruction::FinalizeNoAttesters)
    } else if data[0] == TAG_ATTEST_REVEAL {
        if data.len() < 13 || data.len() != 13 + le_at(data, 9, 4) {
            r == Err::<Instruction, Error>(Error::InvalidInstruction)
        } else {
            r matches Ok(Instruction::AttestReveal { voted_number_of_winners, reveal_plaintext })
                && voted_number_of_winners == le_at(data, 1, 8) && reveal_plaintext@ == data.subrange(
                13,
                data.len() as int,
            )
        }
    } else if data[0] == TAG_CLAIM_REFUND {
        r == Ok::<Instruction, Error>(Instruction::ClaimRefund)
    } else if data[0] == TAG_CLOSE_PARTICIPANT {
        r == Ok::<Instruction, Error>(Instruction::CloseParticipant)
    } else if data[0] == TAG_CLOSE_REFUND_VAULT {
        r == Ok::<Instruction, Error>(Instruction::CloseRefundVault)
    } else {
        r == Err::<Instruction, Error>(Error::InvalidInstruction)
    }
}

/// Decodes instruction data: a one-byte tag, then the instruction's fields
/// in little-endian order.  Data too short for its tag, an undecodable list
/// or an unknown or retired tag fail with `InvalidInstruction`.
pub fn decode_instruction(instruction_data: &[u8]) -> (r: Result<Instruction, Error>)
    ensures
        decode_ok(instruction_data@, r),
{
    proof {
        lemma_pow256_values();
    }
    let len: usize = instruction_data.len();
    if len == 0 {
        return Err(Error::InvalidInstruction);
    }
    let tag: u8 = instruction_data[0];
    if tag == TAG_INITIALIZE {
        if len < 1 + 8 + 2 + 4 {
            return Err(Error::InvalidInstruction);
        }
        let ticket_price_lamports = read_le(instruction_data, 1, 8) as u64;
        let service_charge_bps = read_le(instruction_data, 9, 2) as u16;
        let max_winners_cap = read_le(instruction_data, 11, 4) as u32;
        Ok(Instruction::Initialize { ticket_price_lamports, service_charge_bps, max_winners_cap })
    } else if tag == TAG_UPDATE_SERVICE_CHARGE {
        if len < 1 + 2 {
            return Err(Error::InvalidInstruction);
        }
        let new_bps = read_le(instruction_data, 1, 2) as u16;
        Ok(Instruction::UpdateServiceCharge { new_bps })
    } else if tag == TAG_CREATE_LOTTERY {
        Ok(Instruction::CreateLottery)
    } else if tag == TAG_BUY_TICKETS {
        if len < 1 + 1 + 8 {
            return Err(Error::InvalidInstruction);
        }
        let has_hash = instruction_data[1] != 0;
        let expected_len: usize = if has_hash { 1 + 1 + 32 + 8 } else { 1 + 1 + 8 };
        if len < expected_len {
            return Err(Error::InvalidInstruction);
        }
        if has_hash {
            let mut hash: [u8; 32] = [0u8; 32];
            let mut i: usize = 0;
            while i < 32
                invariant
                    len == instruction_data@.len(),
                    len >= 42,
                    hash@.len() == 32,
                    i <= 32,
                    forall|j: int| 0 <= j < i ==> #[trigger] hash@[j] == instruction_data@[2 + j],
                decreases 32 - i,
            {
                hash[i] = instruction_data[2 + i];
                i = i + 1;
            }
            proof {
                assert(hash@ =~= instruction_data@.subrange(2, 34));
            }
            let number_of_tickets = read_le(instruction_data, 34, 8) as u64;
            Ok(Instruction::BuyTickets { proof_of_chance_hash: Some(hash), number_of_tickets })
        } else {
            let number_of_tickets = read_le(instruction_data, 2, 8) as u64;
            Ok(Instruction::BuyTickets { proof_of_chance_hash: None, number_of_tickets })
        }
    } else if tag == TAG_ATTEST_UPLOADED {
        if len < 1 + 8 {
            return Err(Error::InvalidInstruction);
        }
        let voted_number_of_winners = read_le(instruction_data, 1, 8) as u64;
        Ok(Instruction::AttestUploaded { voted_number_of_winners })
    } else if tag == TAG_UPLOAD_REVEALS {
        if len < 1 + 4 {
            return Err(Error::InvalidInstruction);
        }
        let rest = slice_from(instruction_data, 1);
        match decode_reveal_entries(rest.as_slice()) {
            None => Err(Error::InvalidInstruction),
            Some(raw) => Ok(Instruction::UploadReveals { entries: reveal_entries_from(raw) }),
        }
    } else if tag == TAG_BEGIN_REVEAL_NOW {
        if len < 1 + 4 + 4 {
            return Err(Error::InvalidInstruction);
        }
        let attestation_secs = read_le(instruction_data, 1, 4) as u32;
        let upload_secs = read_le(instruction_data, 5, 4) as u32;
        Ok(Instruction::BeginRevealNow { attestation_secs, upload_secs })
    } else if tag == TAG_FINALIZE_WINNERS {
        Ok(Instruction::FinalizeWinners)
    } else if tag == TAG_SETTLE_PAYOUT_BATCH {
        if len < 1 + 8 + 4 {
            return Err(Error::InvalidInstruction);
        }
        let lottery_id = read_le(instruction_data, 1, 8) as u64;
        let batch_index = read_le(instruction_data, 9, 4) as u32;
        let rest = slice_from(instruction_data, 13);
        match decode_winner_proofs(rest.as_slice()) {
            None => Err(Error::InvalidInstruction),
            Some(raw) => Ok(
                Instruction::SettlePayoutBatch { lottery_id, batch_index, winners: winner_proofs_from(raw) },
            ),
        }
    } else if tag == TAG_BEGIN_REVEAL_PHASE {
        Ok(Instruction::BeginRevealPhase)
    } else if tag == TAG_FINALIZE_NO_ATTESTERS {
        Ok(Instruction::FinalizeNoAttesters)
    } else if tag == TAG_ATTEST_REVEAL {
        if len < 1 + 8 + 4 {
            return Err(Error::InvalidInstruction);
        }
        let voted_number_of_winners = read_le(instruction_data, 1, 8) as u64;
        let text_len = read_le(instruction_data, 9, 4);
        if (len - 13) as u128 != text_len {
            return Err(Error::InvalidInstruction);
        }
        Ok(Instruction::AttestReveal { voted_number_of_winners, reveal_plaintext: slice_from(instruction_data, 13) })
    } else if tag == TAG_CLAIM_REFUND {
        Ok(Instruction::ClaimRefund)
    } else if tag == TAG_CLOSE_PARTICIPANT {
        Ok(Instruction::CloseParticipant)
    } else if tag == TAG_CLOSE_REFUND_VAULT {
        Ok(Instruction::CloseRefundVault)
    } else {
        Err(Error::InvalidInstruction)
    }
}

} // verus!
