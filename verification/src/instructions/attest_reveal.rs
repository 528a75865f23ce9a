//! A participant's own reveal: instead of relying on the provider to upload
//! its plaintext, the participant submits it on-chain, which attests and
//! includes the reveal in one step.
use vstd::prelude::*;
use crate::address::Address;
use crate::error::Error;
use crate::state::config::{Config, effective_max_winners_of};
use crate::state::lottery::{Lottery, LotteryPhase};
use crate::state::participant::{Participant, vote_bits, REVEAL_INCLUDED_FLAG};
use crate::state::vote_tally::{VoteTally, weights_after_vote, first_seen_after_vote, selected_winners_of};
use crate::utils::crypto::{
    compute_reveal_digest, solana_hash, solana_hashv_digest, reveal_digest_parts, xor_fold,
    xor_reveal_digests,
};
use crate::utils::limits::MAX_REVEAL_PLAINTEXT_BYTES;
use crate::utils::pda::{assert_pda_owned, participant_seed_list, participant_seeds, derives_to, lemma_seed_lists_valid};

verus! {

/// Why a participant's own reveal is refused, if it is: an empty or too
/// long plaintext (`InvalidUploads`); a participant account not at the
/// wallet's address (`InvalidSeeds`) or not owned by the program
/// (`IncorrectOwner`); a participant of another lottery or wallet
/// (`InvalidAccountData`); no tickets (`InvalidInstruction`); already
/// attested (`AttestationAlreadySubmitted`) or already revealed
/// (`InvalidUploads`); outside the upload phase (`OutsideTimeWindow`); a vote
/// of zero or above the effective winner cap (`InvalidInstruction`); a
/// plaintext that does not hash to the commitment (`RevealMismatch`); an
/// attestation count overflow (`MathOverflow`); a vote tally of another
/// lottery or cap (`InvalidAccountData`); a tally count overflow
/// (`MathOverflow`).
pub open spec fn attest_reveal_error(
    program_id: Address,
    lottery_key: Address,
    participant_key: Address,
    participant_owner: Address,
    lottery: Lottery,
    participant: Participant,
    config: Config,
    wallet: Address,
    tally: VoteTally,
    plaintext: Seq<u8>,
    vote: u64,
    current_time: i64,
) -> Option<Error> {
    let cap = effective_max_winners_of(config.max_winners_cap, lottery.participants_count);
    if plaintext.len() == 0 || plaintext.len() > MAX_REVEAL_PLAINTEXT_BYTES {
        Some(Error::InvalidUploads)
    } else if !derives_to(participant_seeds(lottery_key.bytes@, wallet.bytes@), program_id.bytes@, participant_key.bytes@) {
        Some(Error::InvalidSeeds)
    } else if participant_owner.bytes@ != program_id.bytes@ {
        Some(Error::IncorrectOwner)
    } else if participant.lottery.bytes@ != lottery_key.bytes@ || participant.wallet.bytes@ != wallet.bytes@ {
        Some(Error::InvalidAccountData)
    } else if participant.tickets_bought == 0 {
        Some(Error::InvalidInstruction)
    } else if participant.attested_uploaded {
        Some(Error::AttestationAlreadySubmitted)
    } else if participant.voted_number_of_winners & REVEAL_INCLUDED_FLAG != 0 {
        Some(Error::InvalidUploads)
    } else if lottery.phase_of(current_time) != LotteryPhase::Upload {
        Some(Error::OutsideTimeWindow)
    } else if vote == 0 || vote > cap {
        Some(Error::InvalidInstruction)
    } else if solana_hashv_digest(seq![plaintext]) != participant.proof_of_chance_hash@ {
        Some(Error::RevealMismatch)
    } else if lottery.attested_count == u64::MAX {
        Some(Error::MathOverflow)
    } else if tally.lottery.bytes@ != lottery_key.bytes@ || tally.max_winners != cap {
        Some(Error::InvalidAccountData)
    } else if tally.processed_count == u64::MAX {
        Some(Error::MathOverflow)
    } else {
        None
    }
}

/// The lottery after a participant's own reveal with digest `digest`, vote
/// `vote` at `current_time`, the tally having become `weights` /
/// `first_seen`: one more attestation and one more reveal, the digest
/// XORed into the entropy, the number of winners the votes select (with
/// more than one participant), settlement begun once everyone attested, and
/// uploads complete once every attested reveal is in and either everyone
/// attested or the upload deadline passed.
pub open spec fn lottery_after_reveal(
    lottery: Lottery,
    digest: [u8; 32],
    weights: Seq<u128>,
    first_seen: Seq<i64>,
    max_winners: u64,
    current_time: i64,
) -> Lottery {
    let attested = (lottery.attested_count + 1) as u64;
    let uploaded = if lottery.provider_uploaded_count == u64::MAX {
        u64::MAX
    } else {
        (lottery.provider_uploaded_count + 1) as u64
    };
    let all_attested = lottery.participants_count > 0 && attested == lottery.participants_count;
    let elapsed = lottery.upload_deadline_unix > 0 && current_time > lottery.upload_deadline_unix;
    Lottery {
        attested_count: attested,
        provider_uploaded_count: uploaded,
        selected_number_of_winners: if lottery.participants_count > 1 {
            selected_winners_of(weights, first_seen, max_winners, lottery.participants_count)
        } else {
            lottery.selected_number_of_winners
        },
        settlement_start_unix: if all_attested && lottery.settlement_start_unix == 0 {
            current_time
        } else {
            lottery.settlement_start_unix
        },
        uploads_complete: lottery.uploads_complete || (uploaded >= attested && (all_attested || elapsed)),
        poc_aggregate_hash: digest,
        ..lottery
    }
}

/// A self-reveal in a lottery of more than one participant sets the number
/// of winners to the one the votes select, over the tally as the reveal's
/// vote left it; with a single participant the number stays.
pub proof fn lemma_reveal_selects_voted_winners(
    lottery: Lottery,
    digest: [u8; 32],
    weights: Seq<u128>,
    first_seen: Seq<i64>,
    max_winners: u64,
    current_time: i64,
)
    ensures
        lottery.participants_count > 1 ==> lottery_after_reveal(
            lottery,
            digest,
            weights,
            first_seen,
            max_winners,
            current_time,
        ).selected_number_of_winners == selected_winners_of(
            weights,
            first_seen,
            max_winners,
            lottery.participants_count,
        ),
        lottery.participants_count <= 1 ==> lottery_after_reveal(
            lottery,
            digest,
            weights,
            first_seen,
            max_winners,
            current_time,
        ).selected_number_of_winners == lottery.selected_number_of_winners,
{
}

/// Attests and includes a participant's own reveal `reveal_plaintext` with
/// `vote` at `current_time` (see `attest_reveal_error` for refusals, on
/// which nothing changes).  On success: the participant is attested now
/// with its vote and marked revealed; the reveal's digest is XORed into the
/// lottery's entropy (`lottery_after_reveal`); the tally counts every
/// attestation, takes the vote weighted by the participant's tickets and
/// one more processed reveal.  The result also holds the digest.
pub fn plan_attest_reveal(
    program_id: &Address,
    lottery_key: &Address,
    participant_key: &Address,
    participant_owner: &Address,
    lottery: Lottery,
    participant: Participant,
    config: &Config,
    wallet: &Address,
    reveal_plaintext: &[u8],
    vote: u64,
    current_time: i64,
    tally: &mut VoteTally,
) -> (r: Result<(Lottery, Participant, [u8; 32]), Error>)
    requires
        old(tally).first_seen@.len() >= old(tally).weights@.len(),
    ensures
        ({
            let err = attest_reveal_error(
                *program_id,
                *lottery_key,
                *participant_key,
                *participant_owner,
                lottery,
                participant,
                *config,
                *wallet,
                *old(tally),
                reveal_plaintext@,
                vote,
                current_time,
            );
            let voted = vote_bits(vote);
            let weights = weights_after_vote(
                old(tally).weights@,
                old(tally).max_winners,
                voted,
                participant.tickets_bought as u128,
            );
            let first_seen = first_seen_after_vote(
                old(tally).weights@,
                old(tally).first_seen@,
                old(tally).max_winners,
                voted,
                current_time,
            );
            &&& err is Some ==> r == Err::<(Lottery, Participant, [u8; 32]), Error>(err->0) && *final(tally)
                == *old(tally)
            &&& err is None ==> {
                let (l, p, digest) = r->Ok_0;
                &&& r is Ok
                &&& digest@ == solana_hashv_digest(reveal_digest_parts(participant.wallet.bytes@, reveal_plaintext@))
                &&& l.poc_aggregate_hash@ == xor_fold(lottery.poc_aggregate_hash@, seq![digest])
                &&& l == lottery_after_reveal(
                    lottery,
                    l.poc_aggregate_hash,
                    weights,
                    first_seen,
                    old(tally).max_winners,
                    current_time,
                )
                &&& p == (Participant {
                    voted_number_of_winners: voted | REVEAL_INCLUDED_FLAG,
                    attested_uploaded: true,
                    attested_at_unix: current_time,
                    ..participant
                })
                &&& final(tally).lottery == old(tally).lottery
                &&& final(tally).max_winners == old(tally).max_winners
                &&& final(tally).total_attested == l.attested_count
                &&& final(tally).processed_count == old(tally).processed_count + 1
                &&& final(tally).weights@ == weights
                &&& final(tally).first_seen@ == first_seen
                &&& lottery.participants_count > 1 ==> l.selected_number_of_winners == selected_winners_of(
                    final(tally).weights@,
                    final(tally).first_seen@,
                    final(tally).max_winners,
                    lottery.participants_count,
                )
                &&& final(tally).weights@.len() == old(tally).weights@.len()
                &&& (1 <= vote <= old(tally).max_winners && vote < old(tally).weights@.len())
                    ==> final(tally).weights@[vote as int] == (if old(tally).weights@[vote as int]
                    + participant.tickets_bought > u128::MAX {
                    u128::MAX
                } else {
                    (old(tally).weights@[vote as int] + participant.tickets_bought) as u128
                })
            }
        }),
{
    if reveal_plaintext.len() == 0 || reveal_plaintext.len() > MAX_REVEAL_PLAINTEXT_BYTES {
        return Err(Error::InvalidUploads);
    }
    let seeds = participant_seed_list(lottery_key, wallet);
    proof {
        lemma_seed_lists_valid(lottery_key.bytes@, lottery_key.bytes@, wallet.bytes@, 0, 0);
    }
    assert_pda_owned(program_id, participant_key, participant_owner, &seeds)?;
    if !participant.lottery.equals(lottery_key) || !participant.wallet.equals(wallet) {
        return Err(Error::InvalidAccountData);
    }
    if !participant.has_tickets() {
        return Err(Error::InvalidInstruction);
    }
    if participant.attested_uploaded {
        return Err(Error::AttestationAlreadySubmitted);
    }
    if participant.reveal_included() {
        return Err(Error::InvalidUploads);
    }
    if lottery.phase_kind(current_time) != LotteryPhase::Upload {
        return Err(Error::OutsideTimeWindow);
    }
    let cap = config.effective_max_winners(lottery.participants_count);
    if vote == 0 || vote > cap {
        return Err(Error::InvalidInstruction);
    }
    let reveal_hash = solana_hash(reveal_plaintext);
    if !crate::address::bytes32_eq(&reveal_hash, &participant.proof_of_chance_hash) {
        return Err(Error::RevealMismatch);
    }
    if lottery.attested_count == u64::MAX {
        return Err(Error::MathOverflow);
    }
    if !tally.lottery.equals(lottery_key) || tally.max_winners != cap {
        return Err(Error::InvalidAccountData);
    }
    if tally.processed_count == u64::MAX {
        return Err(Error::MathOverflow);
    }

    let digest = compute_reveal_digest(&participant.wallet, reveal_plaintext);
    let digests: [[u8; 32]; 1] = [digest];
    let aggregate_hash = xor_reveal_digests(lottery.poc_aggregate_hash, digests.as_slice());
    proof {
        assert(digests@ =~= seq![digest]);
    }

    let mut revealed = participant;
    let set = revealed.set_vote_number_of_winners(vote);
    proof {
        assert(set is Ok);
    }
    let attested = revealed.attest_upload(current_time);
    proof {
        assert(attested is Ok);
    }
    revealed.mark_reveal_included();

    let attested_count: u64 = lottery.attested_count + 1;
    let uploaded_count: u64 = lottery.provider_uploaded_count.saturating_add(1);
    let mut updated = lottery;
    updated.attested_count = attested_count;
    updated.provider_uploaded_count = uploaded_count;
    updated.poc_aggregate_hash = aggregate_hash;

    proof {
        crate::state::participant::lemma_flags_keep_vote(vote);
        crate::state::participant::lemma_small_vote_recorded(vote);
    }
    tally.total_attested = updated.attested_count;
    tally.add_vote(revealed.voted_winners(), revealed.tickets_bought as u128, revealed.attested_at_unix);
    tally.processed_count = tally.processed_count + 1;
    if updated.participants_count > 1 {
        let selected = tally.selected_winners(updated.participants_count);
        let chosen = updated.set_selected_winners(selected);
        proof {
            assert(chosen is Ok);
        }
    }
    let all_attested = updated.participants_count > 0 && updated.attested_count == updated.participants_count;
    let upload_elapsed = updated.upload_deadline_unix > 0 && current_time > updated.upload_deadline_unix;
    if all_attested && updated.settlement_start_unix == 0 {
        updated.settlement_start_unix = current_time;
    }
    if updated.provider_uploaded_count >= updated.attested_count && (all_attested || upload_elapsed) {
        updated.uploads_complete = true;
    }
    Ok((updated, revealed, digest))
}

} // verus!
