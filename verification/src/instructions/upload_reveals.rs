//! Uploading the participants' reveals.
//!
//! The authority uploads, in chunks, the plaintexts behind the
//! participants' proof-of-chance hashes.  Each reveal is checked against
//! its hash, its digest enters the draw entropy by XOR (so neither the
//! order nor the chunking matters), the participant's vote for the number
//! of winners is tallied, and the lottery takes the number of winners the
//! votes select.  Entries are handled in the byte order of their wallets.
use vstd::prelude::*;
use vstd::string::{StringSliceAdditionalSpecFns, StrSliceExecFns};
use vstd::utf8::{valid_utf8, decode_utf8, encode_utf8_decode_utf8};
use crate::address::{Address, bytes_lt, lemma_bytes_lt_order, address_lt};
use crate::error::Error;
use crate::state::lottery::Lottery;
use crate::state::participant::{Participant, REVEAL_INCLUDED_FLAG, vote_bits};
use crate::state::sizes::MAX_WINNERS;
use crate::state::vote_tally::{
    VoteTally, weights_after_vote, first_seen_after_vote, selected_winners_of,
};
use crate::utils::crypto::{
    compute_reveal_digest, solana_hash, solana_hashv_digest, reveal_digest_parts, xor_fold,
    xor_reveal_digests,
};
use crate::utils::limits::MAX_REVEAL_PLAINTEXT_BYTES;
use crate::utils::pda::{
    assert_pda_owned, participant_seed_list, participant_seeds, derives_to, lemma_seed_lists_valid,
};

verus! {

/// Whether an upload of reveals is out of phase at `current_time`: the
/// lottery is settled or its uploads are complete, or neither has the
/// upload deadline passed, nor has everyone attested, nor has settlement
/// started.
pub open spec fn upload_out_of_phase(lottery: Lottery, current_time: i64) -> bool {
    ||| lottery.settled || lottery.settlement_complete || lottery.uploads_complete
    ||| (!(lottery.upload_deadline_unix > 0 && current_time > lottery.upload_deadline_unix) && !(
    lottery.participants_count > 0 && lottery.attested_count == lottery.participants_count)
        && lottery.settlement_start_unix == 0)
}

/// Opens an upload of reveals at `current_time`: `InvalidPhaseTransition`
/// out of phase, `NoAttestedParticipants` when nobody attested; otherwise
/// settlement starts now unless it had started.  On error nothing changes.
pub fn begin_reveal_upload(lottery: &mut Lottery, current_time: i64) -> (r: Result<(), Error>)
    ensures
        upload_out_of_phase(*old(lottery), current_time) ==> r == Err::<(), Error>(
            Error::InvalidPhaseTransition,
        ) && *final(lottery) == *old(lottery),
        !upload_out_of_phase(*old(lottery), current_time) && old(lottery).attested_count == 0 ==> r
            == Err::<(), Error>(Error::NoAttestedParticipants) && *final(lottery) == *old(lottery),
        !upload_out_of_phase(*old(lottery), current_time) && old(lottery).attested_count > 0 ==> r
            == Ok::<(), Error>(()) && *final(lottery) == (Lottery {
            settlement_start_unix: if old(lottery).settlement_start_unix == 0 {
                current_time
            } else {
                old(lottery).settlement_start_unix
            },
            ..*old(lottery)
        }),
{
    if lottery.settled || lottery.settlement_complete || lottery.uploads_complete {
        return Err(Error::InvalidPhaseTransition);
    }
    let upload_elapsed = lottery.upload_deadline_unix > 0 && current_time > lottery.upload_deadline_unix;
    let all_attested = lottery.participants_count > 0 && lottery.attested_count
        == lottery.participants_count;
    if !upload_elapsed && !all_attested && lottery.settlement_start_unix == 0 {
        return Err(Error::InvalidPhaseTransition);
    }
    if lottery.attested_count == 0 {
        return Err(Error::NoAttestedParticipants);
    }
    if lottery.settlement_start_unix == 0 {
        lottery.settlement_start_unix = current_time;
    }
    Ok(())
}

/// The winner counts a lottery's vote tally tracks: one with at most one
/// participant, otherwise one less than the participants, at most
/// `MAX_WINNERS`.
pub fn vote_tally_max_winners(participants_count: u64) -> (r: u64)
    ensures
        r == (if participants_count <= 1 {
            1
        } else if participants_count - 1 < MAX_WINNERS {
            (participants_count - 1) as u64
        } else {
            MAX_WINNERS as u64
        }),
{
    if participants_count <= 1 {
        1
    } else {
        let others: u64 = participants_count - 1;
        if others < MAX_WINNERS as u64 {
            others
        } else {
            MAX_WINNERS as u64
        }
    }
}

/// Fails with `InvalidInstruction` unless a stored vote tally belongs to
/// the lottery and tracks `max_winners` counts.
pub fn check_vote_tally(tally: &VoteTally, lottery_key: &Address, max_winners: u64) -> (r: Result<(), Error>)
    ensures
        r == (if tally.lottery.bytes@ != lottery_key.bytes@ || tally.max_winners != max_winners {
            Err::<(), Error>(Error::InvalidInstruction)
        } else {
            Ok(())
        }),
{
    if !tally.lottery.equals(lottery_key) {
        return Err(Error::InvalidInstruction);
    }
    if tally.max_winners != max_winners {
        return Err(Error::InvalidInstruction);
    }
    Ok(())
}

/// Whether uploaded entries can be processed: no wallet twice and no
/// plaintext longer than `MAX_REVEAL_PLAINTEXT_BYTES`.
pub open spec fn reveal_entries_valid(es: Seq<(Address, Vec<u8>)>) -> bool {
    &&& forall|i: int, j: int|
        0 <= i < j < es.len() ==> #[trigger] es[i].0.bytes@ != #[trigger] es[j].0.bytes@
    &&& forall|i: int| 0 <= i < es.len() ==> #[trigger] es[i].1@.len() <= MAX_REVEAL_PLAINTEXT_BYTES
}

/// Whether `order` lists each entry of `es` once, in increasing byte
/// order of the wallets.
pub open spec fn in_wallet_order(es: Seq<(Address, Vec<u8>)>, order: Seq<usize>) -> bool {
    &&& order.len() == es.len()
    &&& forall|k: int| 0 <= k < order.len() ==> #[trigger] order[k] < es.len()
    &&& forall|a: int, b: int|
        0 <= a < b < order.len() ==> bytes_lt(
            #[trigger] es[order[a] as int].0.bytes@,
            #[trigger] es[order[b] as int].0.bytes@,
        )
}

/// Whether `x` occurs in `s`.
pub open spec fn listed(s: Seq<usize>, x: int) -> bool {
    exists|k: int| 0 <= k < s.len() && s[k] == x
}

/// The order in which uploaded entries are processed: increasing byte
/// order of the wallets.  `InvalidUploads` for a wallet given twice or a
/// plaintext too long.
pub fn reveal_order(entries: &Vec<(Address, Vec<u8>)>) -> (r: Result<Vec<usize>, Error>)
    ensures
        !reveal_entries_valid(entries@) ==> r == Err::<Vec<usize>, Error>(Error::InvalidUploads),
        reveal_entries_valid(entries@) ==> r is Ok && in_wallet_order(entries@, r->Ok_0@),
{
    let n = entries.len();
    let mut sorted: Vec<usize> = Vec::new();
    let mut i: usize = 0;
    while i < n
        invariant
            n == entries@.len(),
            i <= n,
            sorted@.len() == i,
            forall|k: int| 0 <= k < sorted@.len() ==> #[trigger] sorted@[k] < i,
            forall|x: int| 0 <= x < i ==> #[trigger] listed(sorted@, x),
            forall|a: int, b: int|
                0 <= a < b < sorted@.len() ==> bytes_lt(
                    #[trigger] entries@[sorted@[a] as int].0.bytes@,
                    #[trigger] entries@[sorted@[b] as int].0.bytes@,
                ),
            forall|x: int, y: int|
                0 <= x < y < i ==> #[trigger] entries@[x].0.bytes@ != #[trigger] entries@[y].0.bytes@,
            forall|x: int| 0 <= x < i ==> #[trigger] entries@[x].1@.len() <= MAX_REVEAL_PLAINTEXT_BYTES,
        decreases n - i,
    {
        let key = &entries[i].0;
        if entries[i].1.len() > MAX_REVEAL_PLAINTEXT_BYTES {
            return Err(Error::InvalidUploads);
        }
        let mut p: usize = 0;
        while p < sorted.len() && address_lt(&entries[sorted[p]].0, key)
            invariant
                n == entries@.len(),
                i < n,
                *key == entries@[i as int].0,
                p <= sorted@.len(),
                forall|k: int| 0 <= k < sorted@.len() ==> #[trigger] sorted@[k] < i,
                forall|k: int|
                    0 <= k < p ==> bytes_lt(#[trigger] entries@[sorted@[k] as int].0.bytes@, key.bytes@),
            decreases sorted@.len() - p,
        {
            p = p + 1;
        }
        if p < sorted.len() && entries[sorted[p]].0.equals(key) {
            proof {
                assert(entries@[sorted@[p as int] as int].0.bytes@ == entries@[i as int].0.bytes@);
                assert(!reveal_entries_valid(entries@)) by {
                    let x = sorted@[p as int] as int;
                    assert(0 <= x < i);
                    assert(entries@[x].0.bytes@ == entries@[i as int].0.bytes@);
                }
            }
            return Err(Error::InvalidUploads);
        }
        proof {
            let kb = key.bytes@;
            assert forall|k: int| p <= k < sorted@.len() implies bytes_lt(
                kb,
                #[trigger] entries@[sorted@[k] as int].0.bytes@,
            ) by {
                let at_p = entries@[sorted@[p as int] as int].0.bytes@;
                lemma_bytes_lt_order(at_p, kb, kb);
                lemma_bytes_lt_order(kb, at_p, entries@[sorted@[k] as int].0.bytes@);
                if k > p {
                    lemma_bytes_lt_order(
                        kb,
                        at_p,
                        entries@[sorted@[k] as int].0.bytes@,
                    );
                }
            }
            assert forall|x: int| 0 <= x < i implies #[trigger] entries@[x].0.bytes@
                != entries@[i as int].0.bytes@ by {
                assert(listed(sorted@, x));
                let k = choose|k: int| 0 <= k < sorted@.len() && sorted@[k] == x;
                let kx = entries@[x].0.bytes@;
                lemma_bytes_lt_order(kx, kx, kx);
                if k >= p {
                    assert(bytes_lt(key.bytes@, entries@[sorted@[k] as int].0.bytes@));
                } else {
                    assert(bytes_lt(entries@[sorted@[k] as int].0.bytes@, key.bytes@));
                }
            }
        }
        let ghost before = sorted@;
        sorted.insert(p, i);
        proof {
            assert forall|a: int, b: int| 0 <= a < b < sorted@.len() implies bytes_lt(
                #[trigger] entries@[sorted@[a] as int].0.bytes@,
                #[trigger] entries@[sorted@[b] as int].0.bytes@,
            ) by {
                if a < p && b == p {
                    assert(sorted@[a] == before[a]);
                } else if a == p && b > p {
                    assert(sorted@[b] == before[b - 1]);
                } else if a < p && b > p {
                    assert(sorted@[a] == before[a]);
                    assert(sorted@[b] == before[b - 1]);
                    lemma_bytes_lt_order(
                        entries@[before[a] as int].0.bytes@,
                        key.bytes@,
                        entries@[before[b - 1] as int].0.bytes@,
                    );
                } else if b < p {
                    assert(sorted@[a] == before[a]);
                    assert(sorted@[b] == before[b]);
                } else {
                    assert(sorted@[a] == before[a - 1]);
                    assert(sorted@[b] == before[b - 1]);
                }
            }
            assert forall|x: int| 0 <= x < i + 1 implies #[trigger] listed(sorted@, x) by {
                if x == i {
                    assert(sorted@[p as int] == x);
                } else {
                    assert(listed(before, x));
                    let k = choose|k: int| 0 <= k < before.len() && before[k] == x;
                    if k < p {
                        assert(sorted@[k] == x);
                    } else {
                        assert(sorted@[k + 1] == x);
                    }
                }
            }
        }
        i = i + 1;
    }
    Ok(sorted)
}

/// The byte that separates the lucky words from the salt in a reveal.
pub const REVEAL_SEPARATOR: u8 = 0x1f;

/// Position of the first separator at or after `i`, or the length.
pub open spec fn separator_index(pt: Seq<u8>, i: int) -> int
    decreases pt.len() - i,
{
    if i >= pt.len() {
        pt.len() as int
    } else if pt[i] == REVEAL_SEPARATOR {
        i
    } else {
        separator_index(pt, i + 1)
    }
}

/// The lucky words of a reveal: everything before the first separator.
pub open spec fn lucky_words(pt: Seq<u8>) -> Seq<u8> {
    pt.subrange(0, separator_index(pt, 0))
}

/// Whether `c` has the Unicode White_Space property (what
/// `char::is_whitespace` and `str::trim` go by).
pub open spec fn is_white_space(c: char) -> bool {
    let u = c as u32;
    ||| 0x09 <= u <= 0x0d
    ||| u == 0x20
    ||| u == 0x85
    ||| u == 0xa0
    ||| u == 0x1680
    ||| 0x2000 <= u <= 0x200a
    ||| u == 0x2028
    ||| u == 0x2029
    ||| u == 0x202f
    ||| u == 0x205f
    ||| u == 0x3000
}

/// Whether `b` is trimmed from invalid UTF-8 lucky words: space, tab, line
/// feed or carriage return.
pub open spec fn is_trimmed_byte(b: u8) -> bool {
    b == 0x20 || b == 0x09 || b == 0x0a || b == 0x0d
}

/// First position at or after `i` whose char is not white space.
pub open spec fn skip_white_chars(cs: Seq<char>, i: int) -> int
    decreases cs.len() - i,
{
    if i >= cs.len() {
        cs.len() as int
    } else if is_white_space(cs[i]) {
        skip_white_chars(cs, i + 1)
    } else {
        i
    }
}

/// End of `cs[start..end]` with trailing white space removed.
pub open spec fn back_white_chars(cs: Seq<char>, start: int, end: int) -> int
    decreases end - start,
{
    if end <= start {
        start
    } else if is_white_space(cs[end - 1]) {
        back_white_chars(cs, start, end - 1)
    } else {
        end
    }
}

/// First position at or after `i` whose byte is not trimmed.
pub open spec fn skip_trimmed_bytes(bs: Seq<u8>, i: int) -> int
    decreases bs.len() - i,
{
    if i >= bs.len() {
        bs.len() as int
    } else if is_trimmed_byte(bs[i]) {
        skip_trimmed_bytes(bs, i + 1)
    } else {
        i
    }
}

/// End of `bs[start..end]` with trailing trimmed bytes removed.
pub open spec fn back_trimmed_bytes(bs: Seq<u8>, start: int, end: int) -> int
    decreases end - start,
{
    if end <= start {
        start
    } else if is_trimmed_byte(bs[end - 1]) {
        back_trimmed_bytes(bs, start, end - 1)
    } else {
        end
    }
}

/// The score of a reveal: the number of characters of its lucky words
/// without surrounding white space; when the lucky words are not UTF-8,
/// the number of bytes without surrounding spaces, tabs and line breaks.
pub open spec fn reveal_score_of(pt: Seq<u8>) -> nat {
    let lw = lucky_words(pt);
    if valid_utf8(lw) {
        let cs = decode_utf8(lw);
        let s = skip_white_chars(cs, 0);
        (back_white_chars(cs, s, cs.len() as int) - s) as nat
    } else {
        let s = skip_trimmed_bytes(lw, 0);
        (back_trimmed_bytes(lw, s, lw.len() as int) - s) as nat
    }
}

/// Calls `core::str::from_utf8`, which accepts exactly the valid UTF-8 byte
/// strings and then views the same bytes as a string.
#[verifier::external_body]
fn str_from_utf8(bytes: &[u8]) -> (r: Option<&str>)
    ensures
        r is Some <==> valid_utf8(bytes@),
        r is Some ==> r->0.spec_bytes() == bytes@,
{
    core::str::from_utf8(bytes).ok()
}

fn is_white_space_char(c: char) -> (r: bool)
    ensures
        r == is_white_space(c),
{
    let u = c as u32;
    (0x09 <= u && u <= 0x0d) || u == 0x20 || u == 0x85 || u == 0xa0 || u == 0x1680 || (0x2000 <= u
        && u <= 0x200a) || u == 0x2028 || u == 0x2029 || u == 0x202f || u == 0x205f || u == 0x3000
}

/// The score of a reveal (see `reveal_score_of`); informational only.
pub fn reveal_score(plaintext: &[u8]) -> (r: u64)
    ensures
        r == reveal_score_of(plaintext@),
{
    let n = plaintext.len();
    let mut sep: usize = 0;
    while sep < n && plaintext[sep] != REVEAL_SEPARATOR
        invariant
            n == plaintext@.len(),
            sep <= n,
            separator_index(plaintext@, 0) == separator_index(plaintext@, sep as int),
        decreases n - sep,
    {
        sep = sep + 1;
    }
    let mut lw: Vec<u8> = Vec::new();
    let mut k: usize = 0;
    while k < sep
        invariant
            n == plaintext@.len(),
            sep <= n,
            k <= sep,
            lw@ == plaintext@.subrange(0, k as int),
        decreases sep - k,
    {
        lw.push(plaintext[k]);
        proof {
            assert(lw@ =~= plaintext@.subrange(0, k + 1));
        }
        k = k + 1;
    }
    proof {
        assert(lw@ == lucky_words(plaintext@));
    }
    match str_from_utf8(lw.as_slice()) {
        Some(s) => {
            proof {
                encode_utf8_decode_utf8(s@);
            }
            let len = s.unicode_len();
            let mut start: usize = 0;
            while start < len && is_white_space_char(s.get_char(start))
                invariant
                    len == s@.len(),
                    start <= len,
                    skip_white_chars(s@, 0) == skip_white_chars(s@, start as int),
                decreases len - start,
            {
                start = start + 1;
            }
            let mut end: usize = len;
            while end > start && is_white_space_char(s.get_char(end - 1))
                invariant
                    len == s@.len(),
                    start <= end <= len,
                    back_white_chars(s@, start as int, len as int) == back_white_chars(
                        s@,
                        start as int,
                        end as int,
                    ),
                decreases end - start,
            {
                end = end - 1;
            }
            (end - start) as u64
        },
        None => {
            let len = lw.len();
            let mut start: usize = 0;
            while start < len && (lw[start] == 0x20 || lw[start] == 0x09 || lw[start] == 0x0a
                || lw[start] == 0x0d)
                invariant
                    len == lw@.len(),
                    start <= len,
                    skip_trimmed_bytes(lw@, 0) == skip_trimmed_bytes(lw@, start as int),
                decreases len - start,
            {
                start = start + 1;
            }
            let mut end: usize = len;
            while end > start && (lw[end - 1] == 0x20 || lw[end - 1] == 0x09 || lw[end - 1] == 0x0a
                || lw[end - 1] == 0x0d)
                invariant
                    len == lw@.len(),
                    start <= end <= len,
                    back_trimmed_bytes(lw@, start as int, len as int) == back_trimmed_bytes(
                        lw@,
                        start as int,
                        end as int,
                    ),
                decreases end - start,
            {
                end = end - 1;
            }
            (end - start) as u64
        },
    }
}

/// Why a participant's reveal is refused, if it is: the account is not
/// the participant's address (`InvalidSeeds`) or not owned by the program
/// (`IncorrectOwner`), the participant belongs to another lottery
/// (`InvalidAccountData`), its reveal was already included or it did not
/// attest (`InvalidUploads`), or the plaintext does not hash to its
/// proof-of-chance hash (`RevealMismatch`).
pub open spec fn reveal_error(
    program_id: Address,
    lottery_key: Address,
    participant_key: Address,
    participant_owner: Address,
    p: Participant,
    plaintext: Seq<u8>,
) -> Option<Error> {
    if !derives_to(participant_seeds(lottery_key.bytes@, p.wallet.bytes@), program_id.bytes@, participant_key.bytes@) {
        Some(Error::InvalidSeeds)
    } else if participant_owner.bytes@ != program_id.bytes@ {
        Some(Error::IncorrectOwner)
    } else if p.lottery.bytes@ != lottery_key.bytes@ {
        Some(Error::InvalidAccountData)
    } else if p.voted_number_of_winners & REVEAL_INCLUDED_FLAG != 0 {
        Some(Error::InvalidUploads)
    } else if !p.attested_uploaded {
        Some(Error::InvalidUploads)
    } else if solana_hashv_digest(seq![plaintext]) != p.proof_of_chance_hash@ {
        Some(Error::RevealMismatch)
    } else {
        None
    }
}

/// Whether a participant's vote counts: a number of winners from one to
/// one less than the participants.
pub open spec fn vote_counts(voted: u64, participants_count: u64) -> bool {
    voted > 0 && voted <= (if participants_count >= 1 { participants_count - 1 } else { 0 })
}

/// Exactly the votes for one to one less than the participants count.
pub proof fn lemma_vote_counts_exactly(voted: u64, participants_count: u64)
    ensures
        vote_counts(voted, participants_count) <==> 1 <= voted && voted + 1 <= participants_count,
{
}

/// Includes one participant's reveal (see `reveal_error` for refusals, on
/// which nothing changes): its vote, if it counts, is tallied with its
/// tickets as weight and its attestation time; its score is recorded and
/// it is marked included.  The result is the reveal's digest.
pub fn apply_reveal(
    program_id: &Address,
    lottery_key: &Address,
    participants_count: u64,
    participant_key: &Address,
    participant_owner: &Address,
    participant: &mut Participant,
    plaintext: &[u8],
    tally: &mut VoteTally,
) -> (r: Result<[u8; 32], Error>)
    requires
        old(tally).first_seen@.len() >= old(tally).weights@.len(),
    ensures
        ({
            let err = reveal_error(
                *program_id,
                *lottery_key,
                *participant_key,
                *participant_owner,
                *old(participant),
                plaintext@,
            );
            let voted = vote_bits(old(participant).voted_number_of_winners);
            &&& err is Some ==> {
                &&& r == Err::<[u8; 32], Error>(err->0)
                &&& *final(participant) == *old(participant)
                &&& *final(tally) == *old(tally)
            }
            &&& err is None ==> {
                &&& r is Ok
                &&& r->Ok_0@ == solana_hashv_digest(
                    reveal_digest_parts(old(participant).wallet.bytes@, plaintext@),
                )
                &&& *final(participant) == (Participant {
                    reveal_score: reveal_score_of(plaintext@) as u64,
                    voted_number_of_winners: old(participant).voted_number_of_winners
                        | REVEAL_INCLUDED_FLAG,
                    ..*old(participant)
                })
                &&& final(tally).lottery == old(tally).lottery
                &&& final(tally).max_winners == old(tally).max_winners
                &&& final(tally).total_attested == old(tally).total_attested
                &&& final(tally).processed_count == old(tally).processed_count
                &&& if vote_counts(voted, participants_count) {
                    &&& final(tally).weights@ == weights_after_vote(
                        old(tally).weights@,
                        old(tally).max_winners,
                        voted,
                        old(participant).tickets_bought as u128,
                    )
                    &&& final(tally).first_seen@ == first_seen_after_vote(
                        old(tally).weights@,
                        old(tally).first_seen@,
                        old(tally).max_winners,
                        voted,
                        old(participant).attested_at_unix,
                    )
                } else {
                    &&& final(tally).weights@ == old(tally).weights@
                    &&& final(tally).first_seen@ == old(tally).first_seen@
                }
                &&& final(tally).weights@.len() == old(tally).weights@.len()
                &&& (1 <= voted && voted + 1 <= participants_count && voted <= old(tally).max_winners && voted
                    < old(tally).weights@.len()) ==> final(tally).weights@[voted as int] == (if old(
                    tally,
                ).weights@[voted as int] + old(participant).tickets_bought > u128::MAX {
                    u128::MAX
                } else {
                    (old(tally).weights@[voted as int] + old(participant).tickets_bought) as u128
                })
            }
        }),
{
    let seeds = participant_seed_list(lottery_key, &participant.wallet);
    proof {
        lemma_seed_lists_valid(lottery_key.bytes@, lottery_key.bytes@, participant.wallet.bytes@, 0, 0);
    }
    assert_pda_owned(program_id, participant_key, participant_owner, &seeds)?;
    if !participant.lottery.equals(lottery_key) {
        return Err(Error::InvalidAccountData);
    }
    if participant.reveal_included() {
        return Err(Error::InvalidUploads);
    }
    if !participant.attested_uploaded {
        return Err(Error::InvalidUploads);
    }
    let reveal_hash = solana_hash(plaintext);
    if !crate::address::bytes32_eq(&reveal_hash, &participant.proof_of_chance_hash) {
        return Err(Error::RevealMismatch);
    }
    let reveal_digest = compute_reveal_digest(&participant.wallet, plaintext);
    let score = reveal_score(plaintext);
    let voted = participant.voted_winners();
    let others: u64 = participants_count.saturating_sub(1);
    if voted > 0 && voted <= others {
        tally.add_vote(voted, participant.tickets_bought as u128, participant.attested_at_unix);
    }
    participant.reveal_score = score;
    participant.mark_reveal_included();
    Ok(reveal_digest)
}

/// Ends an upload chunk that included `new_uploads` reveals with digests
/// `digests`: the digests are XORed into the draw entropy, the uploads are
/// counted (saturating) and complete once every attested participant is
/// in, and the lottery takes the number of winners the votes select.  With
/// at most one participant no number of winners fits and the result is
/// `InvalidInstruction`, changing nothing.
pub fn finish_upload_reveals(
    lottery: &mut Lottery,
    tally: &mut VoteTally,
    digests: &[[u8; 32]],
    new_uploads: u64,
) -> (r: Result<(), Error>)
    ensures
        old(lottery).participants_count <= 1 ==> r == Err::<(), Error>(Error::InvalidInstruction)
            && *final(lottery) == *old(lottery) && *final(tally) == *old(tally),
        old(lottery).participants_count > 1 ==> {
            let uploaded = if old(lottery).provider_uploaded_count + new_uploads > u64::MAX {
                u64::MAX
            } else {
                (old(lottery).provider_uploaded_count + new_uploads) as u64
            };
            &&& r == Ok::<(), Error>(())
            &&& final(lottery).poc_aggregate_hash@ == xor_fold(old(lottery).poc_aggregate_hash@, digests@)
            &&& *final(lottery) == (Lottery {
                provider_uploaded_count: uploaded,
                uploads_complete: old(lottery).uploads_complete || uploaded >= old(lottery).attested_count,
                poc_aggregate_hash: final(lottery).poc_aggregate_hash,
                selected_number_of_winners: selected_winners_of(
                    old(tally).weights@,
                    old(tally).first_seen@,
                    old(tally).max_winners,
                    old(lottery).participants_count,
                ),
                ..*old(lottery)
            })
            &&& *final(tally) == (VoteTally {
                processed_count: if old(tally).processed_count + new_uploads > u64::MAX {
                    u64::MAX
                } else {
                    (old(tally).processed_count + new_uploads) as u64
                },
                ..*old(tally)
            })
        },
{
    let selected = tally.selected_winners(lottery.participants_count);
    if lottery.participants_count <= 1 {
        return Err(Error::InvalidInstruction);
    }
    tally.processed_count = tally.processed_count.saturating_add(new_uploads);
    let aggregate_hash = xor_reveal_digests(lottery.poc_aggregate_hash, digests);
    lottery.provider_uploaded_count = lottery.provider_uploaded_count.saturating_add(new_uploads);
    if lottery.provider_uploaded_count >= lottery.attested_count {
        lottery.uploads_complete = true;
    }
    lottery.poc_aggregate_hash = aggregate_hash;
    let set = lottery.set_selected_winners(selected);
    proof {
        assert(set is Ok);
    }
    Ok(())
}

/// A reveal is included at most once: after a participant's reveal is
/// included, uploading it again is refused with `InvalidUploads`.
pub proof fn lemma_reveal_included_once(
    program_id: Address,
    lottery_key: Address,
    participant_key: Address,
    participant_owner: Address,
    p: Participant,
    plaintext: Seq<u8>,
    again: Seq<u8>,
)
    requires
        reveal_error(program_id, lottery_key, participant_key, participant_owner, p, plaintext) is None,
    ensures
        reveal_error(
            program_id,
            lottery_key,
            participant_key,
            participant_owner,
            Participant {
                reveal_score: reveal_score_of(plaintext) as u64,
                voted_number_of_winners: p.voted_number_of_winners | REVEAL_INCLUDED_FLAG,
                ..p
            },
            again,
        ) == Some(Error::InvalidUploads),
{
    let v = p.voted_number_of_winners;
    assert((v | 0x8000_0000_0000_0000u64) & 0x8000_0000_0000_0000u64 != 0) by (bit_vector);
}

} // verus!
