//! Attesting that a reveal was uploaded.
//!
//! During the upload window a participant attests, with a vote for the
//! number of winners, that its reveal reached the provider.  The provider
//! co-signs: an ed25519 signature-verification instruction earlier in the
//! same transaction must carry the config authority's key and the exact
//! attestation message.  Once every participant attested, settlement
//! begins.
use vstd::prelude::*;
use crate::address::Address;
use crate::error::Error;
use crate::state::config::{Config, effective_max_winners_of};
use crate::state::lottery::{Lottery, LotteryPhase};
use crate::state::participant::{Participant, vote_bits};
use crate::utils::bytes::{le_bytes, write_le, extend_bytes};

verus! {

/// The bytes of `"IKIGAI_ATTEST_V2"`.
pub open spec fn attestation_domain() -> Seq<u8> {
    seq![0x49u8, 0x4b, 0x49, 0x47, 0x41, 0x49, 0x5f, 0x41, 0x54, 0x54, 0x45, 0x53, 0x54, 0x5f, 0x56, 0x32]
}

/// The message the provider signs for an attestation: domain tag,
/// lottery, wallet, proof-of-chance hash and vote (8 little-endian bytes).
pub open spec fn attestation_message_of(lottery: Seq<u8>, wallet: Seq<u8>, proof_hash: Seq<u8>, vote: u64) -> Seq<u8> {
    attestation_domain() + lottery + wallet + proof_hash + le_bytes(vote as nat, 8)
}

/// The attestation message (see `attestation_message_of`).
pub fn attestation_message(lottery: &Address, wallet: &Address, proof_hash: &[u8; 32], vote: u64) -> (r: Vec<u8>)
    ensures
        r@ == attestation_message_of(lottery.bytes@, wallet.bytes@, proof_hash@, vote),
{
    let domain: [u8; 16] = [
        0x49, 0x4b, 0x49, 0x47, 0x41, 0x49, 0x5f, 0x41, 0x54, 0x54, 0x45, 0x53, 0x54, 0x5f, 0x56, 0x32,
    ];
    let mut m: Vec<u8> = Vec::new();
    extend_bytes(&mut m, domain.as_slice());
    extend_bytes(&mut m, lottery.bytes.as_slice());
    extend_bytes(&mut m, wallet.bytes.as_slice());
    extend_bytes(&mut m, proof_hash.as_slice());
    let vote_le = write_le(vote as u128, 8);
    extend_bytes(&mut m, vote_le.as_slice());
    proof {
        assert(domain@ =~= attestation_domain());
        assert(m@ =~= attestation_message_of(lottery.bytes@, wallet.bytes@, proof_hash@, vote));
    }
    m
}

/// The little-endian `u16` at `off`.
pub open spec fn u16_at(data: Seq<u8>, off: int) -> int {
    data[off] + 256 * data[off + 1]
}

/// The public key and message of an ed25519 verification instruction
/// that checks exactly one signature with everything inline: one
/// signature, the signature, key and message all in this instruction
/// (instruction index `0xffff`), and all of them within the data (the
/// 64-byte signature too).  `None` for anything else.
pub open spec fn ed25519_parts(data: Seq<u8>) -> Option<(Seq<u8>, Seq<u8>)> {
    if data.len() < 16 || data[0] != 1 {
        None
    } else {
        let sig_off = u16_at(data, 2);
        let pk_off = u16_at(data, 6);
        let msg_off = u16_at(data, 10);
        let msg_sz = u16_at(data, 12);
        if u16_at(data, 4) != 0xffff || u16_at(data, 8) != 0xffff || u16_at(data, 14) != 0xffff {
            None
        } else if sig_off >= data.len() || pk_off + 32 > data.len() || msg_off + msg_sz > data.len()
            || sig_off + 64 > data.len() {
            None
        } else {
            Some((data.subrange(pk_off, pk_off + 32), data.subrange(msg_off, msg_off + msg_sz)))
        }
    }
}

fn read_u16(data: &[u8], off: usize) -> (r: usize)
    requires
        off + 2 <= data@.len(),
    ensures
        r == u16_at(data@, off as int),
{
    data[off] as usize + 256 * data[off + 1] as usize
}

fn copy_range(data: &[u8], start: usize, len: usize) -> (r: Vec<u8>)
    requires
        start + len <= data@.len(),
    ensures
        r@ == data@.subrange(start as int, start + len),
{
    let n = data.len();
    let mut out: Vec<u8> = Vec::new();
    let mut i: usize = 0;
    while i < len
        invariant
            n == data@.len(),
            start + len <= data@.len(),
            i <= len,
            out@ == data@.subrange(start as int, start + i),
        decreases len - i,
    {
        out.push(data[start + i]);
        proof {
            assert(out@ =~= data@.subrange(start as int, start + i + 1));
        }
        i = i + 1;
    }
    out
}

/// Parses an ed25519 verification instruction (see `ed25519_parts`) into
/// its public key and message.
pub fn parse_ed25519_ix(data: &[u8]) -> (r: Option<(Vec<u8>, Vec<u8>)>)
    ensures
        match ed25519_parts(data@) {
            None => r is None,
            Some((pk, msg)) => match r {
                Some((key, message)) => key@ == pk && message@ == msg,
                None => false,
            },
        },
{
    let len = data.len();
    if len < 16 || data[0] != 1 {
        return None;
    }
    let sig_off = read_u16(data, 2);
    let sig_ix = read_u16(data, 4);
    let pk_off = read_u16(data, 6);
    let pk_ix = read_u16(data, 8);
    let msg_off = read_u16(data, 10);
    let msg_sz = read_u16(data, 12);
    let msg_ix = read_u16(data, 14);
    if sig_ix != 0xffff || pk_ix != 0xffff || msg_ix != 0xffff {
        return None;
    }
    if sig_off >= len {
        return None;
    }
    if pk_off + 32 > len {
        return None;
    }
    if msg_off + msg_sz > len {
        return None;
    }
    let pk = copy_range(data, pk_off, 32);
    let msg = copy_range(data, msg_off, msg_sz);
    if sig_off + 64 > len {
        return None;
    }
    Some((pk, msg))
}

/// Whether one of the `preceding` instructions (program id and data) is an
/// ed25519 verification by `authority` of exactly `expected`.
pub open spec fn provider_signed(
    preceding: Seq<(Address, Vec<u8>)>,
    ed25519_program: Address,
    authority: Address,
    expected: Seq<u8>,
) -> bool {
    exists|i: int|
        0 <= i < preceding.len() && #[trigger] preceding[i].0.bytes@ == ed25519_program.bytes@
            && ed25519_parts(preceding[i].1@) == Some((authority.bytes@, expected))
}

/// Checks the provider's co-signature (see `provider_signed`).
pub fn attestation_signed(
    preceding: &Vec<(Address, Vec<u8>)>,
    ed25519_program: &Address,
    authority: &Address,
    expected: &Vec<u8>,
) -> (r: bool)
    ensures
        r == provider_signed(preceding@, *ed25519_program, *authority, expected@),
{
    let mut i: usize = 0;
    while i < preceding.len()
        invariant
            i <= preceding@.len(),
            forall|k: int|
                0 <= k < i ==> !(#[trigger] preceding@[k].0.bytes@ == ed25519_program.bytes@
                    && ed25519_parts(preceding@[k].1@) == Some((authority.bytes@, expected@))),
        decreases preceding@.len() - i,
    {
        if preceding[i].0.equals(ed25519_program) {
            match parse_ed25519_ix(preceding[i].1.as_slice()) {
                Some((pk, msg)) => {
                    if crate::utils::bytes::bytes_eq(pk.as_slice(), authority.bytes.as_slice())
                        && crate::utils::bytes::bytes_eq(msg.as_slice(), expected.as_slice()) {
                        proof {
                            assert(preceding@[i as int].0.bytes@ == ed25519_program.bytes@);
                        }
                        return true;
                    }
                },
                None => {},
            }
        }
        i = i + 1;
    }
    false
}

/// Why an attestation is refused, if it is: the signer is not the
/// participant's wallet (`Unauthorized`), the participant has no ticket
/// (`InvalidInstruction`), the lottery is not in its upload phase
/// (`OutsideTimeWindow`), the vote is not between one and one less than
/// the participants (exactly one for a single participant), or above the
/// configured cap (`InvalidInstruction`),
/// the participant already attested (`AttestationAlreadySubmitted`), or
/// the provider did not co-sign (`InvalidAttestation`).
pub open spec fn attestation_error(
    lottery: Lottery,
    participant: Participant,
    config: Config,
    wallet: Address,
    signed: bool,
    current_time: i64,
    vote: u64,
) -> Option<Error> {
    if participant.wallet.bytes@ != wallet.bytes@ {
        Some(Error::Unauthorized)
    } else if participant.tickets_bought == 0 {
        Some(Error::InvalidInstruction)
    } else if lottery.phase_of(current_time) != LotteryPhase::Upload {
        Some(Error::OutsideTimeWindow)
    } else if vote == 0 || (lottery.participants_count <= 1 && vote != 1) || (lottery.participants_count
        > 1 && vote > lottery.participants_count - 1) || vote > effective_max_winners_of(
        config.max_winners_cap,
        lottery.participants_count,
    ) {
        Some(Error::InvalidInstruction)
    } else if participant.attested_uploaded {
        Some(Error::AttestationAlreadySubmitted)
    } else if !signed {
        Some(Error::InvalidAttestation)
    } else if lottery.attested_count == u64::MAX {
        Some(Error::MathOverflow)
    } else {
        None
    }
}

/// What an attestation writes: the lottery, the participant, and whether
/// settlement began with it.
pub struct Attestation {
    pub lottery: Lottery,
    pub participant: Participant,
    pub began_settlement: bool,
}

/// Records an attestation with `vote` at `current_time` (see
/// `attestation_error` for refusals; the co-signature is looked for among
/// the `preceding` instructions).  The vote is recorded, the participant
/// marked attested and counted; when everyone has attested, settlement
/// begins now unless it had begun.
pub fn plan_attest_uploaded(
    lottery: Lottery,
    participant: Participant,
    config: &Config,
    lottery_key: &Address,
    wallet: &Address,
    preceding: &Vec<(Address, Vec<u8>)>,
    ed25519_program: &Address,
    current_time: i64,
    vote: u64,
) -> (r: Result<Attestation, Error>)
    ensures
        ({
            let signed = provider_signed(
                preceding@,
                *ed25519_program,
                config.authority,
                attestation_message_of(lottery_key.bytes@, wallet.bytes@, participant.proof_of_chance_hash@, vote),
            );
            let err = attestation_error(lottery, participant, *config, *wallet, signed, current_time, vote);
            let attested = (lottery.attested_count + 1) as u64;
            let begins = lottery.participants_count > 0 && attested == lottery.participants_count
                && lottery.settlement_start_unix == 0;
            &&& err is Some ==> r == Err::<Attestation, Error>(err->0)
            &&& err is None ==> {
                &&& r is Ok
                &&& r->Ok_0.participant == (Participant {
                    voted_number_of_winners: vote_bits(vote),
                    attested_uploaded: true,
                    attested_at_unix: current_time,
                    ..participant
                })
                &&& r->Ok_0.began_settlement == begins
                &&& r->Ok_0.lottery == (Lottery {
                    attested_count: attested,
                    settlement_start_unix: if begins {
                        current_time
                    } else {
                        lottery.settlement_start_unix
                    },
                    ..lottery
                })
            }
        }),
{
    if !participant.wallet.equals(wallet) {
        return Err(Error::Unauthorized);
    }
    if !participant.has_tickets() {
        return Err(Error::InvalidInstruction);
    }
    if lottery.phase_kind(current_time) != LotteryPhase::Upload {
        return Err(Error::OutsideTimeWindow);
    }
    if vote == 0 {
        return Err(Error::InvalidInstruction);
    }
    if lottery.participants_count <= 1 {
        if vote != 1 {
            return Err(Error::InvalidInstruction);
        }
    }
    if lottery.participants_count > 1 && vote > lottery.participants_count - 1 {
        return Err(Error::InvalidInstruction);
    }
    if vote > config.effective_max_winners(lottery.participants_count) {
        return Err(Error::InvalidInstruction);
    }
    if participant.attested_uploaded {
        return Err(Error::AttestationAlreadySubmitted);
    }
    let expected = attestation_message(lottery_key, wallet, &participant.proof_of_chance_hash, vote);
    if !attestation_signed(preceding, ed25519_program, &config.authority, &expected) {
        return Err(Error::InvalidAttestation);
    }
    let mut participant = participant;
    let mut lottery = lottery;
    participant.set_vote_number_of_winners(vote)?;
    participant.attest_upload(current_time)?;
    lottery.add_attestation()?;
    let mut began_settlement = false;
    if lottery.participants_count > 0 && lottery.attested_count == lottery.participants_count {
        if lottery.settlement_start_unix == 0 {
            lottery.settlement_start_unix = current_time;
            began_settlement = true;
        }
    }
    Ok(Attestation { lottery, participant, began_settlement })
}

/// A participant attests at most once: after an accepted attestation,
/// attesting again (with any vote, signature or time) is refused.
pub proof fn lemma_attest_once(
    lottery: Lottery,
    participant: Participant,
    config: Config,
    wallet: Address,
    signed: bool,
    current_time: i64,
    vote: u64,
    later_lottery: Lottery,
    later_signed: bool,
    later_time: i64,
    later_vote: u64,
)
    requires
        attestation_error(lottery, participant, config, wallet, signed, current_time, vote) is None,
    ensures
        attestation_error(
            later_lottery,
            Participant {
                voted_number_of_winners: vote_bits(vote),
                attested_uploaded: true,
                attested_at_unix: current_time,
                ..participant
            },
            config,
            wallet,
            later_signed,
            later_time,
            later_vote,
        ) is Some,
{
}

} // verus!
