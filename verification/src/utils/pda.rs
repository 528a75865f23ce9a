//! Program-derived addresses of the lottery's accounts.
//!
//! Every account of the program lives at an address derived from fixed
//! seeds and the program id.  The derivation itself is
//! `Pubkey::find_program_address` of `solana-program`; this module fixes the
//! seeds of each account kind and checks supplied account keys against them.
use vstd::prelude::*;
use crate::address::Address;
use crate::error::Error;
use crate::utils::bytes::{le_bytes, write_le, extend_bytes};
use crate::utils::crypto::views_of;

verus! {

/// The address and bump seed that `Pubkey::try_find_program_address`
/// derives from `seeds` for `program_id`; `None` when it finds none.
pub uninterp spec fn program_address(seeds: Seq<Seq<u8>>, program_id: Seq<u8>) -> Option<(Seq<u8>, u8)>;

/// Whether a found address and bump are the derived ones (both absent, or
/// both present and equal).
pub open spec fn found_as_derived(found: Option<(Address, u8)>, derived: Option<(Seq<u8>, u8)>) -> bool {
    match (found, derived) {
        (Some((a, b)), Some((k, c))) => a.bytes@ == k && b == c,
        (None, None) => true,
        _ => false,
    }
}

/// The bump seed of the address derived from `seeds` (0 when none is).
pub open spec fn derived_bump(seeds: Seq<Seq<u8>>, program_id: Seq<u8>) -> u8 {
    match program_address(seeds, program_id) {
        Some((_k, b)) => b,
        None => 0,
    }
}

/// Whether `key` is the address derived from `seeds` for `program_id`.
pub open spec fn derives_to(seeds: Seq<Seq<u8>>, program_id: Seq<u8>, key: Seq<u8>) -> bool {
    program_address(seeds, program_id) matches Some((k, _b)) && k == key
}

/// Whether `r` is the outcome of deriving an address from `seeds` for
/// `program_id`: the derived address and bump, or `InvalidSeeds` when no
/// address can be derived.
pub open spec fn derivation_result(seeds: Seq<Seq<u8>>, program_id: Seq<u8>, r: Result<(Address, u8), Error>) -> bool {
    match program_address(seeds, program_id) {
        Some((key, bump)) => r is Ok && r->Ok_0.0.bytes@ == key && r->Ok_0.1 == bump,
        None => r == Err::<(Address, u8), Error>(Error::InvalidSeeds),
    }
}

/// Seeds that `find_program_address` accepts: fewer than 16 of them (one
/// more is added for the bump), none longer than 32 bytes.
pub open spec fn valid_seeds(seeds: Seq<Seq<u8>>) -> bool {
    &&& seeds.len() < 16
    &&& forall|i: int| 0 <= i < seeds.len() ==> #[trigger] seeds[i].len() <= 32
}

/// Calls `solana_program::pubkey::Pubkey::try_find_program_address`,
/// which searches the bump seeds from 255 down and returns `None` when none
/// gives an address off the curve (or the seeds break its limits).  The
/// contract claims that the result is the crate's derivation from exactly
/// these seeds and program id.
#[verifier::external_body]
pub(crate) fn find_program_address(seeds: &Vec<Vec<u8>>, program_id: &Address) -> (r: Option<(Address, u8)>)
    ensures
        found_as_derived(r, program_address(views_of(seeds@), program_id.bytes@)),
{
    let slices: Vec<&[u8]> = seeds.iter().map(|s| s.as_slice()).collect();
    let program = solana_program::pubkey::Pubkey::new_from_array(program_id.bytes);
    solana_program::pubkey::Pubkey::try_find_program_address(&slices, &program)
        .map(|found| (Address { bytes: found.0.to_bytes() }, found.1))
}

/// Derives the address of `seeds` (see `derivation_result`).
fn derive(seeds: &Vec<Vec<u8>>, program_id: &Address) -> (r: Result<(Address, u8), Error>)
    ensures
        derivation_result(views_of(seeds@), program_id.bytes@, r),
{
    match find_program_address(seeds, program_id) {
        Some(found) => Ok(found),
        None => Err(Error::InvalidSeeds),
    }
}

pub open spec fn config_tag() -> Seq<u8> {
    seq![0x63u8, 0x6f, 0x6e, 0x66, 0x69, 0x67]
}

pub open spec fn lottery_tag() -> Seq<u8> {
    seq![0x6cu8, 0x6f, 0x74, 0x74, 0x65, 0x72, 0x79]
}

pub open spec fn participant_tag() -> Seq<u8> {
    seq![0x70u8, 0x61, 0x72, 0x74, 0x69, 0x63, 0x69, 0x70, 0x61, 0x6e, 0x74]
}

pub open spec fn vault_tag() -> Seq<u8> {
    seq![0x76u8, 0x61, 0x75, 0x6c, 0x74]
}

pub open spec fn winners_ledger_tag() -> Seq<u8> {
    seq![0x77u8, 0x69, 0x6e, 0x6e, 0x65, 0x72, 0x73, 0x5f, 0x6c, 0x65, 0x64, 0x67, 0x65, 0x72]
}

pub open spec fn vote_tally_tag() -> Seq<u8> {
    seq![0x76u8, 0x6f, 0x74, 0x65, 0x5f, 0x74, 0x61, 0x6c, 0x6c, 0x79]
}

pub open spec fn finalization_root_tag() -> Seq<u8> {
    seq![0x66u8, 0x69, 0x6e, 0x61, 0x6c, 0x69, 0x7a, 0x61, 0x74, 0x69, 0x6f, 0x6e, 0x5f, 0x72,
        0x6f, 0x6f, 0x74, 0x5f, 0x76, 0x32]
}

pub open spec fn winner_page_tag() -> Seq<u8> {
    seq![0x77u8, 0x69, 0x6e, 0x6e, 0x65, 0x72, 0x5f, 0x70, 0x61, 0x67, 0x65]
}

/// Seeds `["config"]`.
pub open spec fn config_seeds() -> Seq<Seq<u8>> {
    seq![config_tag()]
}

/// Seeds `["lottery", config, lottery_id as 8 little-endian bytes]`.
pub open spec fn lottery_seeds(config: Seq<u8>, lottery_id: u64) -> Seq<Seq<u8>> {
    seq![lottery_tag(), config, le_bytes(lottery_id as nat, 8)]
}

/// Seeds `["participant", lottery, wallet]`.
pub open spec fn participant_seeds(lottery: Seq<u8>, wallet: Seq<u8>) -> Seq<Seq<u8>> {
    seq![participant_tag(), lottery, wallet]
}

/// Seeds `["vault", lottery]`.
pub open spec fn vault_seeds(lottery: Seq<u8>) -> Seq<Seq<u8>> {
    seq![vault_tag(), lottery]
}

/// Seeds `["winners_ledger", lottery]`.
pub open spec fn winners_ledger_seeds(lottery: Seq<u8>) -> Seq<Seq<u8>> {
    seq![winners_ledger_tag(), lottery]
}

/// Seeds `["vote_tally", lottery]`.
pub open spec fn vote_tally_seeds(lottery: Seq<u8>) -> Seq<Seq<u8>> {
    seq![vote_tally_tag(), lottery]
}

/// Seeds `["finalization_root_v2", lottery]`.
pub open spec fn finalization_root_seeds(lottery: Seq<u8>) -> Seq<Seq<u8>> {
    seq![finalization_root_tag(), lottery]
}

/// Seeds `["winner_page", lottery, page_index as 4 little-endian bytes]`.
pub open spec fn winner_page_seeds(lottery: Seq<u8>, page_index: u32) -> Seq<Seq<u8>> {
    seq![winner_page_tag(), lottery, le_bytes(page_index as nat, 4)]
}

fn vec_of(bytes: &[u8]) -> (v: Vec<u8>)
    ensures
        v@ == bytes@,
{
    let mut v: Vec<u8> = Vec::new();
    extend_bytes(&mut v, bytes);
    v
}

fn config_tag_bytes() -> (v: Vec<u8>)
    ensures
        v@ == config_tag(),
{
    let a: [u8; 6] = [0x63, 0x6f, 0x6e, 0x66, 0x69, 0x67];
    proof {
        assert(a@ =~= config_tag());
    }
    vec_of(a.as_slice())
}

fn lottery_tag_bytes() -> (v: Vec<u8>)
    ensures
        v@ == lottery_tag(),
{
    let a: [u8; 7] = [0x6c, 0x6f, 0x74, 0x74, 0x65, 0x72, 0x79];
    proof {
        assert(a@ =~= lottery_tag());
    }
    vec_of(a.as_slice())
}

fn participant_tag_bytes() -> (v: Vec<u8>)
    ensures
        v@ == participant_tag(),
{
    let a: [u8; 11] = [0x70, 0x61, 0x72, 0x74, 0x69, 0x63, 0x69, 0x70, 0x61, 0x6e, 0x74];
    proof {
        assert(a@ =~= participant_tag());
    }
    vec_of(a.as_slice())
}

fn vault_tag_bytes() -> (v: Vec<u8>)
    ensures
        v@ == vault_tag(),
{
    let a: [u8; 5] = [0x76, 0x61, 0x75, 0x6c, 0x74];
    proof {
        assert(a@ =~= vault_tag());
    }
    vec_of(a.as_slice())
}

fn winners_ledger_tag_bytes() -> (v: Vec<u8>)
    ensures
        v@ == winners_ledger_tag(),
{
    let a: [u8; 14] = [0x77, 0x69, 0x6e, 0x6e, 0x65, 0x72, 0x73, 0x5f, 0x6c, 0x65, 0x64, 0x67, 0x65, 0x72];
    proof {
        assert(a@ =~= winners_ledger_tag());
    }
    vec_of(a.as_slice())
}

fn vote_tally_tag_bytes() -> (v: Vec<u8>)
    ensures
        v@ == vote_tally_tag(),
{
    let a: [u8; 10] = [0x76, 0x6f, 0x74, 0x65, 0x5f, 0x74, 0x61, 0x6c, 0x6c, 0x79];
    proof {
        assert(a@ =~= vote_tally_tag());
    }
    vec_of(a.as_slice())
}

fn finalization_root_tag_bytes() -> (v: Vec<u8>)
    ensures
        v@ == finalization_root_tag(),
{
    let a: [u8; 20] = [
        0x66, 0x69, 0x6e, 0x61, 0x6c, 0x69, 0x7a, 0x61, 0x74, 0x69, 0x6f, 0x6e, 0x5f, 0x72, 0x6f,
        0x6f, 0x74, 0x5f, 0x76, 0x32,
    ];
    proof {
        assert(a@ =~= finalization_root_tag());
    }
    vec_of(a.as_slice())
}

fn winner_page_tag_bytes() -> (v: Vec<u8>)
    ensures
        v@ == winner_page_tag(),
{
    let a: [u8; 11] = [0x77, 0x69, 0x6e, 0x6e, 0x65, 0x72, 0x5f, 0x70, 0x61, 0x67, 0x65];
    proof {
        assert(a@ =~= winner_page_tag());
    }
    vec_of(a.as_slice())
}

/// The seeds `["config"]` as byte vectors.
pub fn config_seed_list() -> (s: Vec<Vec<u8>>)
    ensures
        views_of(s@) == config_seeds(),
{
    let mut s: Vec<Vec<u8>> = Vec::new();
    s.push(config_tag_bytes());
    proof {
        assert(views_of(s@) =~= config_seeds());
    }
    s
}

/// The lottery seeds as byte vectors.
pub fn lottery_seed_list(config: &Address, lottery_id: u64) -> (s: Vec<Vec<u8>>)
    ensures
        views_of(s@) == lottery_seeds(config.bytes@, lottery_id),
{
    let mut s: Vec<Vec<u8>> = Vec::new();
    s.push(lottery_tag_bytes());
    s.push(vec_of(config.bytes.as_slice()));
    s.push(write_le(lottery_id as u128, 8));
    proof {
        assert(views_of(s@) =~= lottery_seeds(config.bytes@, lottery_id));
    }
    s
}

/// The participant seeds as byte vectors.
pub fn participant_seed_list(lottery: &Address, wallet: &Address) -> (s: Vec<Vec<u8>>)
    ensures
        views_of(s@) == participant_seeds(lottery.bytes@, wallet.bytes@),
{
    let mut s: Vec<Vec<u8>> = Vec::new();
    s.push(participant_tag_bytes());
    s.push(vec_of(lottery.bytes.as_slice()));
    s.push(vec_of(wallet.bytes.as_slice()));
    proof {
        assert(views_of(s@) =~= participant_seeds(lottery.bytes@, wallet.bytes@));
    }
    s
}

/// The vault seeds as byte vectors.
pub fn vault_seed_list(lottery: &Address) -> (s: Vec<Vec<u8>>)
    ensures
        views_of(s@) == vault_seeds(lottery.bytes@),
{
    let mut s: Vec<Vec<u8>> = Vec::new();
    s.push(vault_tag_bytes());
    s.push(vec_of(lottery.bytes.as_slice()));
    proof {
        assert(views_of(s@) =~= vault_seeds(lottery.bytes@));
    }
    s
}

/// The winners-ledger seeds as byte vectors.
pub fn winners_ledger_seed_list(lottery: &Address) -> (s: Vec<Vec<u8>>)
    ensures
        views_of(s@) == winners_ledger_seeds(lottery.bytes@),
{
    let mut s: Vec<Vec<u8>> = Vec::new();
    s.push(winners_ledger_tag_bytes());
    s.push(vec_of(lottery.bytes.as_slice()));
    proof {
        assert(views_of(s@) =~= winners_ledger_seeds(lottery.bytes@));
    }
    s
}

/// The vote-tally seeds as byte vectors.
pub fn vote_tally_seed_list(lottery: &Address) -> (s: Vec<Vec<u8>>)
    ensures
        views_of(s@) == vote_tally_seeds(lottery.bytes@),
{
    let mut s: Vec<Vec<u8>> = Vec::new();
    s.push(vote_tally_tag_bytes());
    s.push(vec_of(lottery.bytes.as_slice()));
    proof {
        assert(views_of(s@) =~= vote_tally_seeds(lottery.bytes@));
    }
    s
}

/// The finalization-ledger seeds as byte vectors.
pub fn finalization_root_seed_list(lottery: &Address) -> (s: Vec<Vec<u8>>)
    ensures
        views_of(s@) == finalization_root_seeds(lottery.bytes@),
{
    let mut s: Vec<Vec<u8>> = Vec::new();
    s.push(finalization_root_tag_bytes());
    s.push(vec_of(lottery.bytes.as_slice()));
    proof {
        assert(views_of(s@) =~= finalization_root_seeds(lottery.bytes@));
    }
    s
}

/// The winner-page seeds as byte vectors.
pub fn winner_page_seed_list(lottery: &Address, page_index: u32) -> (s: Vec<Vec<u8>>)
    ensures
        views_of(s@) == winner_page_seeds(lottery.bytes@, page_index),
{
    let mut s: Vec<Vec<u8>> = Vec::new();
    s.push(winner_page_tag_bytes());
    s.push(vec_of(lottery.bytes.as_slice()));
    s.push(write_le(page_index as u128, 4));
    proof {
        assert(views_of(s@) =~= winner_page_seeds(lottery.bytes@, page_index));
    }
    s
}

/// The seeds of every address the program derives are valid seeds.
pub proof fn lemma_seed_lists_valid(config: Seq<u8>, lottery: Seq<u8>, wallet: Seq<u8>, id: u64, page: u32)
    requires
        config.len() == 32,
        lottery.len() == 32,
        wallet.len() == 32,
    ensures
        valid_seeds(config_seeds()),
        valid_seeds(lottery_seeds(config, id)),
        valid_seeds(participant_seeds(lottery, wallet)),
        valid_seeds(vault_seeds(lottery)),
        valid_seeds(winners_ledger_seeds(lottery)),
        valid_seeds(vote_tally_seeds(lottery)),
        valid_seeds(finalization_root_seeds(lottery)),
        valid_seeds(winner_page_seeds(lottery, page)),
{
    crate::utils::bytes::lemma_le_bytes_len(id as nat, 8);
    crate::utils::bytes::lemma_le_bytes_len(page as nat, 4);
}

/// The config account's address: seeds `["config"]`.
pub fn derive_config_pda(program_id: &Address) -> (r: Result<(Address, u8), Error>)
    ensures
        derivation_result(config_seeds(), program_id.bytes@, r),
{
    let seeds = config_seed_list();
    proof {
        lemma_seed_lists_valid(program_id.bytes@, program_id.bytes@, program_id.bytes@, 0, 0);
    }
    derive(&seeds, program_id)
}

/// A lottery's address: seeds `["lottery", config, lottery_id_le]`.
pub fn derive_lottery_pda(program_id: &Address, config_pubkey: &Address, lottery_id: u64) -> (r: Result<(Address, u8), Error>)
    ensures
        derivation_result(lottery_seeds(config_pubkey.bytes@, lottery_id), program_id.bytes@, r),
{
    let seeds = lottery_seed_list(config_pubkey, lottery_id);
    proof {
        lemma_seed_lists_valid(config_pubkey.bytes@, config_pubkey.bytes@, config_pubkey.bytes@, lottery_id, 0);
    }
    derive(&seeds, program_id)
}

/// A participant's address: seeds `["participant", lottery, wallet]`.
pub fn derive_participant_pda(program_id: &Address, lottery_pubkey: &Address, wallet_pubkey: &Address) -> (r: Result<(Address, u8), Error>)
    ensures
        derivation_result(participant_seeds(lottery_pubkey.bytes@, wallet_pubkey.bytes@),
            program_id.bytes@, r),
{
    let seeds = participant_seed_list(lottery_pubkey, wallet_pubkey);
    proof {
        lemma_seed_lists_valid(lottery_pubkey.bytes@, lottery_pubkey.bytes@, wallet_pubkey.bytes@, 0, 0);
    }
    derive(&seeds, program_id)
}

/// A lottery's vault address: seeds `["vault", lottery]`.
pub fn derive_vault_pda(program_id: &Address, lottery_pubkey: &Address) -> (r: Result<(Address, u8), Error>)
    ensures
        derivation_result(vault_seeds(lottery_pubkey.bytes@), program_id.bytes@, r),
{
    let seeds = vault_seed_list(lottery_pubkey);
    proof {
        lemma_seed_lists_valid(lottery_pubkey.bytes@, lottery_pubkey.bytes@, lottery_pubkey.bytes@, 0, 0);
    }
    derive(&seeds, program_id)
}

/// A lottery's winners-ledger address: seeds `["winners_ledger", lottery]`.
pub fn derive_winners_ledger_pda(program_id: &Address, lottery_pubkey: &Address) -> (r: Result<(Address, u8), Error>)
    ensures
        derivation_result(winners_ledger_seeds(lottery_pubkey.bytes@), program_id.bytes@, r),
{
    let seeds = winners_ledger_seed_list(lottery_pubkey);
    proof {
        lemma_seed_lists_valid(lottery_pubkey.bytes@, lottery_pubkey.bytes@, lottery_pubkey.bytes@, 0, 0);
    }
    derive(&seeds, program_id)
}

/// A lottery's vote-tally address: seeds `["vote_tally", lottery]`.
pub fn derive_vote_tally_pda(program_id: &Address, lottery_pubkey: &Address) -> (r: Result<(Address, u8), Error>)
    ensures
        derivation_result(vote_tally_seeds(lottery_pubkey.bytes@), program_id.bytes@, r),
{
    let seeds = vote_tally_seed_list(lottery_pubkey);
    proof {
        lemma_seed_lists_valid(lottery_pubkey.bytes@, lottery_pubkey.bytes@, lottery_pubkey.bytes@, 0, 0);
    }
    derive(&seeds, program_id)
}

/// A lottery's finalization-ledger address: seeds
/// `["finalization_root_v2", lottery]`.
pub fn derive_finalization_ledger_pda(program_id: &Address, lottery_pubkey: &Address) -> (r: Result<(Address, u8), Error>)
    ensures
        derivation_result(finalization_root_seeds(lottery_pubkey.bytes@), program_id.bytes@, r),
{
    let seeds = finalization_root_seed_list(lottery_pubkey);
    proof {
        lemma_seed_lists_valid(lottery_pubkey.bytes@, lottery_pubkey.bytes@, lottery_pubkey.bytes@, 0, 0);
    }
    derive(&seeds, program_id)
}

/// A winner page's address: seeds `["winner_page", lottery, page_index_le]`.
pub fn derive_winner_page_pda(program_id: &Address, lottery_pubkey: &Address, page_index: u32) -> (r: Result<(Address, u8), Error>)
    ensures
        derivation_result(winner_page_seeds(lottery_pubkey.bytes@, page_index),
            program_id.bytes@, r),
{
    let seeds = winner_page_seed_list(lottery_pubkey, page_index);
    proof {
        lemma_seed_lists_valid(lottery_pubkey.bytes@, lottery_pubkey.bytes@, lottery_pubkey.bytes@, 0, page_index);
    }
    derive(&seeds, program_id)
}

/// Checks that `account_key` is the address derived from `seeds` and that
/// the account is owned by the program; returns the bump seed.  A key
/// mismatch, or seeds from which no address derives, fail with
/// `InvalidSeeds`, a foreign owner with `IncorrectOwner`.
pub fn assert_pda_owned(
    program_id: &Address,
    account_key: &Address,
    account_owner: &Address,
    seeds: &Vec<Vec<u8>>,
) -> (r: Result<u8, Error>)
    requires
        valid_seeds(views_of(seeds@)),
    ensures
        r == match program_address(views_of(seeds@), program_id.bytes@) {
            None => Err::<u8, Error>(Error::InvalidSeeds),
            Some((expected, bump)) => if expected != account_key.bytes@ {
                Err::<u8, Error>(Error::InvalidSeeds)
            } else if account_owner.bytes@ != program_id.bytes@ {
                Err::<u8, Error>(Error::IncorrectOwner)
            } else {
                Ok::<u8, Error>(bump)
            },
        },
{
    let (expected_key, bump) = derive(seeds, program_id)?;
    if !expected_key.equals(account_key) {
        return Err(Error::InvalidSeeds);
    }
    if !account_owner.equals(program_id) {
        return Err(Error::IncorrectOwner);
    }
    Ok(bump)
}

/// Checks only that `account_key` is the address derived from `seeds`
/// (the account need not exist yet); returns the bump seed.
pub fn assert_pda_key(program_id: &Address, account_key: &Address, seeds: &Vec<Vec<u8>>) -> (r: Result<u8, Error>)
    requires
        valid_seeds(views_of(seeds@)),
    ensures
        r == match program_address(views_of(seeds@), program_id.bytes@) {
            None => Err::<u8, Error>(Error::InvalidSeeds),
            Some((expected, bump)) => if expected != account_key.bytes@ {
                Err::<u8, Error>(Error::InvalidSeeds)
            } else {
                Ok::<u8, Error>(bump)
            },
        },
{
    let (expected_key, bump) = derive(seeds, program_id)?;
    if !expected_key.equals(account_key) {
        return Err(Error::InvalidSeeds);
    }
    Ok(bump)
}

/// The seeds followed by the one-byte bump seed, as used to sign for a
/// program-derived address.
pub fn create_signing_seeds(seeds: &[&[u8]], bump: u8) -> (r: Vec<Vec<u8>>)
    ensures
        r@.len() == seeds@.len() + 1,
        forall|i: int| 0 <= i < seeds@.len() ==> #[trigger] r@[i]@ == seeds@[i]@,
        r@[seeds@.len() as int]@ == seq![bump],
{
    let mut signing_seeds: Vec<Vec<u8>> = Vec::new();
    let mut i: usize = 0;
    while i < seeds.len()
        invariant
            i <= seeds@.len(),
            signing_seeds@.len() == i,
            forall|j: int| 0 <= j < i ==> #[trigger] signing_seeds@[j]@ == seeds@[j]@,
        decreases seeds@.len() - i,
    {
        let s: &[u8] = seeds[i];
        signing_seeds.push(vec_of(s));
        i = i + 1;
    }
    let mut last: Vec<u8> = Vec::new();
    last.push(bump);
    proof {
        assert(last@ =~= seq![bump]);
    }
    signing_seeds.push(last);
    signing_seeds
}

} // verus!
