//! The Borsh encoding of instructions, and the law that decoding the
//! encoding of an instruction gives the instruction back.
use vstd::prelude::*;
use crate::address::Address;
use crate::instructions::{decode_ok, borsh_reveal_entries, borsh_winner_proofs, reveal_entries_prefix,
    winner_proofs_prefix, hashes_at, le_at, Instruction};
use crate::instructions::settle_payout_batch::WinnerProof;
use crate::utils::bytes::{le_bytes, pow256, lemma_le_bytes_len, lemma_le_bytes_roundtrip, lemma_pow256_values};
use crate::utils::crypto::concat_hashes;
use crate::error::Error;

verus! {

/// Borsh bytes of a list of (address, byte string) entries, without the
/// count: each address, then the byte string's 4-byte length and bytes.
pub open spec fn encode_reveal_entries(es: Seq<(Address, Vec<u8>)>) -> Seq<u8>
    decreases es.len(),
{
    if es.len() == 0 {
        Seq::empty()
    } else {
        encode_reveal_entries(es.drop_last()) + encode_reveal_entry(es.last())
    }
}

/// Borsh bytes of one (address, byte string) entry.
pub open spec fn encode_reveal_entry(e: (Address, Vec<u8>)) -> Seq<u8> {
    e.0.bytes@ + le_bytes(e.1@.len(), 4) + e.1@
}

/// Borsh bytes of one winner proof: index, recipient, amount, then the
/// proof hashes with their 4-byte count.
pub open spec fn encode_winner_proof(w: WinnerProof) -> Seq<u8> {
    le_bytes(w.index as nat, 8) + w.recipient.bytes@ + le_bytes(w.amount as nat, 8) + le_bytes(
        w.merkle_proof@.len(),
        4,
    ) + concat_hashes(w.merkle_proof@)
}

/// Borsh bytes of a list of winner proofs, without the count.
pub open spec fn encode_winner_proofs(ws: Seq<WinnerProof>) -> Seq<u8>
    decreases ws.len(),
{
    if ws.len() == 0 {
        Seq::empty()
    } else {
        encode_winner_proofs(ws.drop_last()) + encode_winner_proof(ws.last())
    }
}

/// The Borsh encoding of an instruction: the variant's index as one byte,
/// then its fields in order (integers little-endian, an option as a 0/1
/// byte and the value, a list or byte string as a 4-byte count and the
/// elements).
pub open spec fn borsh_instruction(ix: Instruction) -> Seq<u8> {
    match ix {
        Instruction::Initialize { ticket_price_lamports, service_charge_bps, max_winners_cap } => seq![0u8]
            + le_bytes(ticket_price_lamports as nat, 8) + le_bytes(service_charge_bps as nat, 2) + le_bytes(
            max_winners_cap as nat,
            4,
        ),
        Instruction::UpdateServiceCharge { new_bps } => seq![1u8] + le_bytes(new_bps as nat, 2),
        Instruction::CreateLottery => seq![2u8],
        Instruction::BuyTickets { proof_of_chance_hash, number_of_tickets } => seq![3u8] + match proof_of_chance_hash {
            None => seq![0u8],
            Some(h) => seq![1u8] + h@,
        } + le_bytes(number_of_tickets as nat, 8),
        Instruction::AttestUploaded { voted_number_of_winners } => seq![4u8] + le_bytes(
            voted_number_of_winners as nat,
            8,
        ),
        Instruction::UploadReveals { entries } => seq![5u8] + le_bytes(entries@.len(), 4) + encode_reveal_entries(
            entries@,
        ),
        Instruction::BeginRevealNow { attestation_secs, upload_secs } => seq![6u8] + le_bytes(
            attestation_secs as nat,
            4,
        ) + le_bytes(upload_secs as nat, 4),
        Instruction::FinalizeWinners => seq![7u8],
        Instruction::BeginRevealPhase => seq![8u8],
        Instruction::FinalizeNoAttesters => seq![9u8],
        Instruction::SettlePayoutBatch { lottery_id, batch_index, winners } => seq![10u8] + le_bytes(
            lottery_id as nat,
            8,
        ) + le_bytes(batch_index as nat, 4) + le_bytes(winners@.len(), 4) + encode_winner_proofs(winners@),
        Instruction::SettlementBegin => seq![11u8],
        Instruction::SettlementChunk => seq![12u8],
        Instruction::SettlementFinalize => seq![13u8],
        Instruction::AttestReveal { voted_number_of_winners, reveal_plaintext } => seq![14u8] + le_bytes(
            voted_number_of_winners as nat,
            8,
        ) + le_bytes(reveal_plaintext@.len(), 4) + reveal_plaintext@,
        Instruction::ClaimRefund => seq![15u8],
        Instruction::CloseParticipant => seq![16u8],
        Instruction::CloseRefundVault => seq![17u8],
    }
}

/// Whether an instruction can be sent: not one of the retired ones, and
/// every list and byte string short enough for its 4-byte count.
pub open spec fn sendable(ix: Instruction) -> bool {
    match ix {
        Instruction::UploadReveals { entries } => entries@.len() < pow256(4) && forall|i: int|
            0 <= i < entries@.len() ==> (#[trigger] entries@[i]).1@.len() < pow256(4),
        Instruction::SettlePayoutBatch { winners, .. } => winners@.len() < pow256(4) && forall|i: int|
            0 <= i < winners@.len() ==> (#[trigger] winners@[i]).merkle_proof@.len() < pow256(4),
        Instruction::AttestReveal { reveal_plaintext, .. } => reveal_plaintext@.len() < pow256(4),
        Instruction::SettlementBegin => false,
        Instruction::SettlementChunk => false,
        Instruction::SettlementFinalize => false,
        _ => true,
    }
}

/// Whether two instructions carry the same values (lists and byte strings
/// compared by their contents).
pub open spec fn same_instruction(a: Instruction, b: Instruction) -> bool {
    match (a, b) {
        (
            Instruction::BuyTickets { proof_of_chance_hash: h1, number_of_tickets: n1 },
            Instruction::BuyTickets { proof_of_chance_hash: h2, number_of_tickets: n2 },
        ) => n1 == n2 && match (h1, h2) {
            (None, None) => true,
            (Some(x), Some(y)) => x@ == y@,
            _ => false,
        },
        (Instruction::UploadReveals { entries: e1 }, Instruction::UploadReveals { entries: e2 }) => {
            &&& e1@.len() == e2@.len()
            &&& forall|i: int|
                0 <= i < e1@.len() ==> (#[trigger] e1@[i]).0.bytes@ == e2@[i].0.bytes@ && e1@[i].1@ == e2@[i].1@
        },
        (
            Instruction::SettlePayoutBatch { lottery_id: l1, batch_index: b1, winners: w1 },
            Instruction::SettlePayoutBatch { lottery_id: l2, batch_index: b2, winners: w2 },
        ) => {
            &&& l1 == l2
            &&& b1 == b2
            &&& w1@.len() == w2@.len()
            &&& forall|i: int|
                0 <= i < w1@.len() ==> {
                    &&& (#[trigger] w1@[i]).index == w2@[i].index
                    &&& w1@[i].recipient.bytes@ == w2@[i].recipient.bytes@
                    &&& w1@[i].amount == w2@[i].amount
                    &&& w1@[i].merkle_proof@.map_values(|h: [u8; 32]| h@) == w2@[i].merkle_proof@.map_values(
                        |h: [u8; 32]| h@,
                    )
                }
        },
        (
            Instruction::AttestReveal { voted_number_of_winners: v1, reveal_plaintext: t1 },
            Instruction::AttestReveal { voted_number_of_winners: v2, reveal_plaintext: t2 },
        ) => v1 == v2 && t1@ == t2@,
        (Instruction::BuyTickets { .. }, _) => false,
        (Instruction::UploadReveals { .. }, _) => false,
        (Instruction::SettlePayoutBatch { .. }, _) => false,
        (Instruction::AttestReveal { .. }, _) => false,
        _ => a == b,
    }
}

/// The byte views of entries.
pub open spec fn entries_view(es: Seq<(Address, Vec<u8>)>) -> Seq<(Seq<u8>, Seq<u8>)> {
    es.map_values(|e: (Address, Vec<u8>)| (e.0.bytes@, e.1@))
}

/// The views of winner proofs.
pub open spec fn proofs_view(ws: Seq<WinnerProof>) -> Seq<(u64, Seq<u8>, u64, Seq<Seq<u8>>)> {
    ws.map_values(
        |w: WinnerProof| (w.index, w.recipient.bytes@, w.amount, w.merkle_proof@.map_values(|h: [u8; 32]| h@)),
    )
}

proof fn lemma_field(data: Seq<u8>, off: int, x: nat, n: nat)
    requires
        0 <= off,
        off + n <= data.len(),
        x < pow256(n),
        data.subrange(off, off + n) == le_bytes(x, n),
    ensures
        le_at(data, off, n as int) == x,
{
    lemma_le_bytes_roundtrip(x, n);
}

proof fn lemma_hashes(hs: Seq<[u8; 32]>, rest: Seq<u8>)
    ensures
        concat_hashes(hs).len() == 32 * hs.len(),
        forall|k: int|
            0 <= k < hs.len() ==> (concat_hashes(hs) + rest).subrange(32 * k, 32 * k + 32) == #[trigger] hs[k]@,
    decreases hs.len(),
{
    if hs.len() > 0 {
        let init = hs.drop_last();
        let last = hs.last();
        lemma_hashes(init, last@ + rest);
        assert(concat_hashes(hs) + rest =~= concat_hashes(init) + (last@ + rest));
        assert forall|k: int| 0 <= k < hs.len() implies (concat_hashes(hs) + rest).subrange(32 * k, 32 * k + 32)
            == #[trigger] hs[k]@ by {
            if k < hs.len() - 1 {
                assert(init[k] == hs[k]);
            } else {
                assert((concat_hashes(hs) + rest).subrange(32 * k, 32 * k + 32) =~= last@);
            }
        }
    }
}

proof fn lemma_entries_prefix(es: Seq<(Address, Vec<u8>)>, rest: Seq<u8>)
    requires
        forall|i: int| 0 <= i < es.len() ==> (#[trigger] es[i]).1@.len() < pow256(4),
    ensures
        reveal_entries_prefix(encode_reveal_entries(es) + rest, es.len()) == Some((entries_view(es), rest)),
    decreases es.len(),
{
    if es.len() == 0 {
        assert(encode_reveal_entries(es) + rest =~= rest);
        assert(entries_view(es) =~= Seq::<(Seq<u8>, Seq<u8>)>::empty());
    } else {
        let init = es.drop_last();
        let e = es.last();
        let item = encode_reveal_entry(e);
        assert(encode_reveal_entries(es) + rest =~= encode_reveal_entries(init) + (item + rest));
        assert forall|i: int| 0 <= i < init.len() implies (#[trigger] init[i]).1@.len() < pow256(4) by {
            assert(init[i] == es[i]);
        }
        lemma_entries_prefix(init, item + rest);
        let r2 = item + rest;
        let m = e.1@.len();
        lemma_le_bytes_len(m, 4);
        assert(e.0.bytes@.len() == 32);
        assert(r2.subrange(0, 32) =~= e.0.bytes@);
        assert(r2.subrange(32, 36) =~= le_bytes(m, 4));
        lemma_le_bytes_roundtrip(m, 4);
        assert(r2.subrange(36, 36 + m as int) =~= e.1@);
        assert(r2.subrange(36 + m as int, r2.len() as int) =~= rest);
        assert(entries_view(init).push((e.0.bytes@, e.1@)) =~= entries_view(es));
    }
}

proof fn lemma_proofs_prefix(ws: Seq<WinnerProof>, rest: Seq<u8>)
    requires
        forall|i: int| 0 <= i < ws.len() ==> (#[trigger] ws[i]).merkle_proof@.len() < pow256(4),
    ensures
        winner_proofs_prefix(encode_winner_proofs(ws) + rest, ws.len()) == Some((proofs_view(ws), rest)),
    decreases ws.len(),
{
    if ws.len() == 0 {
        assert(encode_winner_proofs(ws) + rest =~= rest);
        assert(proofs_view(ws) =~= Seq::<(u64, Seq<u8>, u64, Seq<Seq<u8>>)>::empty());
    } else {
        let init = ws.drop_last();
        let w = ws.last();
        let item = encode_winner_proof(w);
        assert(encode_winner_proofs(ws) + rest =~= encode_winner_proofs(init) + (item + rest));
        assert forall|i: int| 0 <= i < init.len() implies (#[trigger] init[i]).merkle_proof@.len() < pow256(4) by {
            assert(init[i] == ws[i]);
        }
        lemma_proofs_prefix(init, item + rest);
        let r2 = item + rest;
        let hs = w.merkle_proof@;
        let m = hs.len();
        lemma_pow256_values();
        lemma_le_bytes_len(w.index as nat, 8);
        lemma_le_bytes_len(w.amount as nat, 8);
        lemma_le_bytes_len(m, 4);
        lemma_hashes(hs, rest);
        assert(w.recipient.bytes@.len() == 32);
        assert(r2.subrange(0, 8) =~= le_bytes(w.index as nat, 8));
        assert(r2.subrange(8, 40) =~= w.recipient.bytes@);
        assert(r2.subrange(40, 48) =~= le_bytes(w.amount as nat, 8));
        assert(r2.subrange(48, 52) =~= le_bytes(m, 4));
        lemma_le_bytes_roundtrip(w.index as nat, 8);
        lemma_le_bytes_roundtrip(w.amount as nat, 8);
        lemma_le_bytes_roundtrip(m, 4);
        let tail = r2.subrange(52, r2.len() as int);
        assert(tail =~= concat_hashes(hs) + rest);
        assert(hashes_at(tail, m) =~= hs.map_values(|h: [u8; 32]| h@)) by {
            assert forall|k: int| 0 <= k < m implies #[trigger] hashes_at(tail, m)[k] == hs.map_values(
                |h: [u8; 32]| h@,
            )[k] by {
                assert(hs[k]@ == (concat_hashes(hs) + rest).subrange(32 * k, 32 * k + 32));
            }
        }
        assert(r2.subrange(52 + 32 * m as int, r2.len() as int) =~= rest);
        assert(proofs_view(init).push(
            (w.index, w.recipient.bytes@, w.amount, hs.map_values(|h: [u8; 32]| h@)),
        ) =~= proofs_view(ws));
    }
}

/// Decoding reads the Borsh encoding: the data of any instruction that can
/// be sent, encoded as Borsh encodes it, decodes to an instruction with the
/// same values.
pub proof fn lemma_decode_reads_borsh(ix: Instruction, r: Result<Instruction, Error>)
    requires
        sendable(ix),
        decode_ok(borsh_instruction(ix), r),
    ensures
        r is Ok,
        same_instruction(r->Ok_0, ix),
{
    let data = borsh_instruction(ix);
    lemma_pow256_values();
    match ix {
        Instruction::Initialize { ticket_price_lamports, service_charge_bps, max_winners_cap } => {
            lemma_le_bytes_len(ticket_price_lamports as nat, 8);
            lemma_le_bytes_len(service_charge_bps as nat, 2);
            lemma_le_bytes_len(max_winners_cap as nat, 4);
            assert(data.subrange(1, 9) =~= le_bytes(ticket_price_lamports as nat, 8));
            assert(data.subrange(9, 11) =~= le_bytes(service_charge_bps as nat, 2));
            assert(data.subrange(11, 15) =~= le_bytes(max_winners_cap as nat, 4));
            lemma_field(data, 1, ticket_price_lamports as nat, 8);
            lemma_field(data, 9, service_charge_bps as nat, 2);
            lemma_field(data, 11, max_winners_cap as nat, 4);
        },
        Instruction::UpdateServiceCharge { new_bps } => {
            lemma_le_bytes_len(new_bps as nat, 2);
            assert(data.subrange(1, 3) =~= le_bytes(new_bps as nat, 2));
            lemma_field(data, 1, new_bps as nat, 2);
        },
        Instruction::BuyTickets { proof_of_chance_hash, number_of_tickets } => {
            lemma_le_bytes_len(number_of_tickets as nat, 8);
            match proof_of_chance_hash {
                None => {
                    assert(data.subrange(2, 10) =~= le_bytes(number_of_tickets as nat, 8));
                    lemma_field(data, 2, number_of_tickets as nat, 8);
                },
                Some(h) => {
                    assert(h@.len() == 32);
                    assert(data[1] == 1u8);
                    assert(data.subrange(2, 34) =~= h@);
                    assert(data.subrange(34, 42) =~= le_bytes(number_of_tickets as nat, 8));
                    lemma_field(data, 34, number_of_tickets as nat, 8);
                },
            }
        },
        Instruction::AttestUploaded { voted_number_of_winners } => {
            lemma_le_bytes_len(voted_number_of_winners as nat, 8);
            assert(data.subrange(1, 9) =~= le_bytes(voted_number_of_winners as nat, 8));
            lemma_field(data, 1, voted_number_of_winners as nat, 8);
        },
        Instruction::UploadReveals { entries } => {
            let n = entries@.len();
            lemma_le_bytes_len(n, 4);
            let d = data.subrange(1, data.len() as int);
            assert(d.subrange(0, 4) =~= le_bytes(n, 4));
            lemma_le_bytes_roundtrip(n, 4);
            assert(d.subrange(4, d.len() as int) =~= encode_reveal_entries(entries@) + Seq::<u8>::empty());
            lemma_entries_prefix(entries@, Seq::<u8>::empty());
            assert(borsh_reveal_entries(d) == Some(entries_view(entries@)));
        },
        Instruction::BeginRevealNow { attestation_secs, upload_secs } => {
            lemma_le_bytes_len(attestation_secs as nat, 4);
            lemma_le_bytes_len(upload_secs as nat, 4);
            assert(data.subrange(1, 5) =~= le_bytes(attestation_secs as nat, 4));
            assert(data.subrange(5, 9) =~= le_bytes(upload_secs as nat, 4));
            lemma_field(data, 1, attestation_secs as nat, 4);
            lemma_field(data, 5, upload_secs as nat, 4);
        },
        Instruction::SettlePayoutBatch { lottery_id, batch_index, winners } => {
            let n = winners@.len();
            lemma_le_bytes_len(lottery_id as nat, 8);
            lemma_le_bytes_len(batch_index as nat, 4);
            lemma_le_bytes_len(n, 4);
            assert(data.subrange(1, 9) =~= le_bytes(lottery_id as nat, 8));
            assert(data.subrange(9, 13) =~= le_bytes(batch_index as nat, 4));
            lemma_field(data, 1, lottery_id as nat, 8);
            lemma_field(data, 9, batch_index as nat, 4);
            let d = data.subrange(13, data.len() as int);
            assert(d.subrange(0, 4) =~= le_bytes(n, 4));
            lemma_le_bytes_roundtrip(n, 4);
            assert(d.subrange(4, d.len() as int) =~= encode_winner_proofs(winners@) + Seq::<u8>::empty());
            lemma_proofs_prefix(winners@, Seq::<u8>::empty());
            assert(borsh_winner_proofs(d) == Some(proofs_view(winners@)));
        },
        Instruction::AttestReveal { voted_number_of_winners, reveal_plaintext } => {
            let m = reveal_plaintext@.len();
            lemma_le_bytes_len(voted_number_of_winners as nat, 8);
            lemma_le_bytes_len(m, 4);
            assert(data.subrange(1, 9) =~= le_bytes(voted_number_of_winners as nat, 8));
            assert(data.subrange(9, 13) =~= le_bytes(m, 4));
            lemma_field(data, 1, voted_number_of_winners as nat, 8);
            lemma_field(data, 9, m, 4);
            assert(data.subrange(13, data.len() as int) =~= reveal_plaintext@);
        },
        _ => {},
    }
}

} // verus!
