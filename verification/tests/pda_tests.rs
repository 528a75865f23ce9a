use daily_lottery::address::Address;
use daily_lottery::utils::pda::{
    assert_pda_key, assert_pda_owned, create_signing_seeds, derive_config_pda,
    derive_finalization_ledger_pda, derive_lottery_pda, derive_participant_pda, derive_vault_pda,
    derive_vote_tally_pda, derive_winner_page_pda, derive_winners_ledger_pda, config_seed_list,
};
use daily_lottery::error::Error;
use solana_program::pubkey::Pubkey;

fn addr(p: &Pubkey) -> Address {
    Address::new_from_array(p.to_bytes())
}

#[test]
fn test_derive_config_pda() {
    let program_id = Pubkey::new_unique();
    let (pda, bump) = derive_config_pda(&addr(&program_id)).unwrap();
    let (expected, expected_bump) = Pubkey::find_program_address(&[b"config"], &program_id);
    assert_eq!(pda, addr(&expected));
    assert_eq!(bump, expected_bump);
}

#[test]
fn test_derive_lottery_pda() {
    let program_id = Pubkey::new_unique();
    let config = Pubkey::new_unique();
    let lottery_id = 42u64;

    let (pda, bump) = derive_lottery_pda(&addr(&program_id), &addr(&config), lottery_id).unwrap();

    let id_bytes = lottery_id.to_le_bytes();
    let (expected, expected_bump) =
        Pubkey::find_program_address(&[b"lottery", config.as_ref(), &id_bytes], &program_id);
    assert_eq!(pda, addr(&expected));
    assert_eq!(bump, expected_bump);
}

#[test]
fn test_derive_participant_pda() {
    let program_id = Pubkey::new_unique();
    let lottery = Pubkey::new_unique();
    let wallet = Pubkey::new_unique();

    let (pda, bump) = derive_participant_pda(&addr(&program_id), &addr(&lottery), &addr(&wallet)).unwrap();

    let (expected, expected_bump) = Pubkey::find_program_address(
        &[b"participant", lottery.as_ref(), wallet.as_ref()],
        &program_id,
    );
    assert_eq!(pda, addr(&expected));
    assert_eq!(bump, expected_bump);
}

#[test]
fn test_derive_vault_pda() {
    let program_id = Pubkey::new_unique();
    let lottery = Pubkey::new_unique();

    let (pda, bump) = derive_vault_pda(&addr(&program_id), &addr(&lottery)).unwrap();

    let (expected, expected_bump) =
        Pubkey::find_program_address(&[b"vault", lottery.as_ref()], &program_id);
    assert_eq!(pda, addr(&expected));
    assert_eq!(bump, expected_bump);
}

#[test]
fn other_addresses_use_their_seeds() {
    let program_id = Pubkey::new_unique();
    let lottery = Pubkey::new_unique();
    let p = addr(&program_id);
    let l = addr(&lottery);
    let cases: Vec<((Address, u8), Vec<Vec<u8>>)> = vec![
        (derive_winners_ledger_pda(&p, &l).unwrap(), vec![b"winners_ledger".to_vec(), lottery.to_bytes().to_vec()]),
        (derive_vote_tally_pda(&p, &l).unwrap(), vec![b"vote_tally".to_vec(), lottery.to_bytes().to_vec()]),
        (
            derive_finalization_ledger_pda(&p, &l).unwrap(),
            vec![b"finalization_root_v2".to_vec(), lottery.to_bytes().to_vec()],
        ),
        (
            derive_winner_page_pda(&p, &l, 3).unwrap(),
            vec![b"winner_page".to_vec(), lottery.to_bytes().to_vec(), 3u32.to_le_bytes().to_vec()],
        ),
    ];
    for ((pda, bump), seeds) in cases {
        let slices: Vec<&[u8]> = seeds.iter().map(|s| s.as_slice()).collect();
        let (expected, expected_bump) = Pubkey::find_program_address(&slices, &program_id);
        assert_eq!(pda, addr(&expected));
        assert_eq!(bump, expected_bump);
    }
}

#[test]
fn pda_checks_report_seed_and_owner_errors() {
    let program_id = addr(&Pubkey::new_unique());
    let (config, bump) = derive_config_pda(&program_id).unwrap();
    let seeds = config_seed_list();
    let other = addr(&Pubkey::new_unique());
    assert_eq!(assert_pda_owned(&program_id, &config, &program_id, &seeds), Ok(bump));
    assert_eq!(assert_pda_owned(&program_id, &other, &program_id, &seeds), Err(Error::InvalidSeeds));
    assert_eq!(assert_pda_owned(&program_id, &config, &other, &seeds), Err(Error::IncorrectOwner));
    assert_eq!(assert_pda_key(&program_id, &config, &seeds), Ok(bump));
    assert_eq!(assert_pda_key(&program_id, &other, &seeds), Err(Error::InvalidSeeds));
}

#[test]
fn test_create_signing_seeds() {
    let bump = 255u8;
    let seeds = create_signing_seeds(&[b"config"], bump);

    assert_eq!(seeds.len(), 2);
    assert_eq!(seeds[0], b"config".to_vec());
    assert_eq!(seeds[1], vec![bump]);
}
