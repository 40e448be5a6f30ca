use anchor_lang::solana_program::incinerator;
use anchor_lang::solana_program::pubkey::Pubkey;
use distribution::{
    distribute_sol, distribute_spl_amount, incinerator as burn_address, initialize, resolve,
    shares_fit, try_distribute_sol, try_distribute_spl_amount, update_recipients,
    validate_schedule, AccountError, Address, Config, DistributeSol, DistributeSplAmount, Error,
    ErrorCode, Initialize, TokenSlot, UpdateRecipients,
};

fn addr(b: u8) -> Address {
    Address::new([b; 32])
}

fn slots(used: &[Address]) -> [Address; 10] {
    let mut s = [burn_address(); 10];
    for (i, a) in used.iter().enumerate() {
        s[i] = *a;
    }
    s
}

fn program() -> Address {
    addr(3)
}

fn record(authority: Address) -> (Address, u8) {
    let (k, bump) = Pubkey::find_program_address(
        &[b"config", &authority.to_bytes()],
        &Pubkey::new_from_array(program().to_bytes()),
    );
    (Address::new(k.to_bytes()), bump)
}

fn key() -> Address {
    record(addr(9)).0
}

fn config(recipients: Vec<Address>, percentages: Vec<u16>) -> Config {
    Config { authority: addr(9), bump: record(addr(9)).1, recipients, percentages }
}

fn token_data(owner: Address) -> Vec<u8> {
    let mut d = vec![0u8; 165];
    d[0..32].copy_from_slice(&[7u8; 32]);
    d[32..64].copy_from_slice(&owner.to_bytes());
    d[64..72].copy_from_slice(&5u64.to_le_bytes());
    d[108] = 1;
    d
}

fn token_slots(used: &[(Address, Vec<u8>)]) -> [TokenSlot; 10] {
    let empty = TokenSlot { key: burn_address(), data: Vec::new() };
    let mut s: [TokenSlot; 10] = std::array::from_fn(|_| empty.clone());
    for (i, (k, d)) in used.iter().enumerate() {
        s[i] = TokenSlot { key: *k, data: d.clone() };
    }
    s
}

fn token_ctx(cfg: Config, atas: [TokenSlot; 10]) -> DistributeSplAmount {
    DistributeSplAmount {
        config: cfg,
        config_key: key(),
        program_id: program(),
        payer: addr(50),
        from_owner: addr(50),
        from_amount: 1_000_000,
        recipient_atas: atas,
    }
}

#[test]
fn burn_address_is_the_ledger_incinerator() {
    assert_eq!(burn_address().to_bytes(), incinerator::ID.to_bytes());
}

#[test]
fn two_recipients_split_sixty_forty() {
    let (a, b) = (addr(1), addr(2));
    let ctx = DistributeSol {
        config_key: key(),
        program_id: program(),
        config: config(vec![a, b], vec![6000, 4000]),
        payer_lamports: 5000,
        recipients: slots(&[a, b]),
    };
    let plan = distribute_sol(&ctx, 1000).unwrap();
    assert_eq!(plan.len(), 2);
    assert_eq!(plan[0].to, a);
    assert_eq!(plan[0].amount, 600);
    assert_eq!(plan[1].to, b);
    assert_eq!(plan[1].amount, 400);
    assert_eq!(1000 - plan.iter().map(|p| p.amount).sum::<u64>(), 0);
}

#[test]
fn swapped_slots_are_refused() {
    let (a, b) = (addr(1), addr(2));
    let ctx = DistributeSol {
        config_key: key(),
        program_id: program(),
        config: config(vec![a, b], vec![6000, 4000]),
        payer_lamports: 5000,
        recipients: slots(&[b, a]),
    };
    assert_eq!(distribute_sol(&ctx, 1000).unwrap_err(), Error::Program(ErrorCode::InvalidRecipient));
}

#[test]
fn total_over_one_hundred_percent_refused_at_create() {
    let ctx = Initialize { authority: addr(9), bump: 255 };
    let r = initialize(&ctx, vec![addr(1), addr(2)], vec![6000, 4001]);
    assert_eq!(r.unwrap_err(), ErrorCode::InvalidTotal);
}

#[test]
fn create_then_update_replaces_both_lists() {
    let bump = record(addr(9)).1;
    let ctx = Initialize { authority: addr(9), bump };
    let cfg = initialize(&ctx, vec![addr(1), addr(2)], vec![5000, 5000]).unwrap();
    assert_eq!(cfg.authority, addr(9));
    assert_eq!(cfg.bump, bump);
    assert_eq!(cfg.recipients, vec![addr(1), addr(2)]);
    let mut upd = UpdateRecipients { config_key: key(), program_id: program(), config: cfg, authority: addr(9) };
    update_recipients(&mut upd, vec![addr(3)], vec![10000]).unwrap();
    assert_eq!(upd.config.recipients, vec![addr(3)]);
    assert_eq!(upd.config.percentages, vec![10000]);
    assert_eq!(upd.config.bump, bump);
}

#[test]
fn ten_recipients_and_empty_schedule_accepted() {
    let ctx = Initialize { authority: addr(9), bump: 1 };
    let r: Vec<Address> = (0..10).map(addr).collect();
    assert!(initialize(&ctx, r, vec![1000; 10]).is_ok());
    assert!(initialize(&ctx, Vec::new(), Vec::new()).is_ok());
}

#[test]
fn eleven_recipients_refused() {
    let r: Vec<Address> = (0..11).map(addr).collect();
    assert_eq!(validate_schedule(&r, &vec![0; 11]), Err(ErrorCode::MaxRecipientsExceeded));
}

#[test]
fn length_mismatch_refused_at_create_and_update() {
    let ctx = Initialize { authority: addr(9), bump: 1 };
    let r = initialize(&ctx, vec![addr(1), addr(2)], vec![20000]);
    assert_eq!(r.unwrap_err(), ErrorCode::LengthMismatch);
    let mut upd = UpdateRecipients { config_key: key(), program_id: program(), config: config(vec![addr(1)], vec![100]), authority: addr(9) };
    let r = update_recipients(&mut upd, vec![addr(1)], vec![1, 2]);
    assert_eq!(r, Err(Error::Program(ErrorCode::LengthMismatch)));
    assert_eq!(upd.config.percentages, vec![100]);
}

#[test]
fn update_total_over_limit_keeps_old_lists() {
    let mut upd = UpdateRecipients { config_key: key(), program_id: program(), config: config(vec![addr(1)], vec![100]), authority: addr(9) };
    let r = update_recipients(&mut upd, vec![addr(2), addr(3)], vec![9000, 1001]);
    assert_eq!(r, Err(Error::Program(ErrorCode::InvalidTotal)));
    assert_eq!(upd.config.recipients, vec![addr(1)]);
}

#[test]
fn update_by_other_signer_refused() {
    let mut upd = UpdateRecipients { config_key: key(), program_id: program(), config: config(vec![addr(1)], vec![100]), authority: addr(8) };
    let r = update_recipients(&mut upd, vec![addr(2)], vec![100]);
    assert_eq!(r, Err(Error::Account(AccountError::ConstraintHasOne)));
    assert_eq!(upd.config.recipients, vec![addr(1)]);
}

#[test]
fn resolve_accepts_only_the_derived_address() {
    let program = Pubkey::new_from_array([3u8; 32]);
    let authority = Pubkey::new_from_array([9u8; 32]);
    let (key, bump) = Pubkey::find_program_address(&[b"config", authority.as_ref()], &program);
    let mut cfg = config(vec![], vec![]);
    cfg.bump = bump;
    let program_id = Address::new(program.to_bytes());
    assert_eq!(resolve(&cfg, &Address::new(key.to_bytes()), &program_id), Ok(()));
    assert_eq!(
        resolve(&cfg, &addr(4), &program_id),
        Err(AccountError::ConstraintSeeds)
    );
    cfg.authority = addr(8);
    assert_eq!(
        resolve(&cfg, &Address::new(key.to_bytes()), &program_id),
        Err(AccountError::ConstraintSeeds)
    );
}

#[test]
fn slot_count_must_match_recipients() {
    let (a, b) = (addr(1), addr(2));
    let mut ctx = DistributeSol {
        config_key: key(),
        program_id: program(),
        config: config(vec![a, b], vec![6000, 4000]),
        payer_lamports: 5000,
        recipients: slots(&[a]),
    };
    assert_eq!(distribute_sol(&ctx, 1000).unwrap_err(), Error::Program(ErrorCode::InvalidRecipientCount));
    ctx.recipients = slots(&[a, b, addr(3)]);
    assert_eq!(distribute_sol(&ctx, 1000).unwrap_err(), Error::Program(ErrorCode::InvalidRecipientCount));
}

#[test]
fn sentinel_slots_anywhere_are_skipped() {
    let (a, b) = (addr(1), addr(2));
    let mut s = [burn_address(); 10];
    s[3] = a;
    s[9] = b;
    let ctx = DistributeSol {
        config_key: key(),
        program_id: program(),
        config: config(vec![a, b], vec![2500, 2500]),
        payer_lamports: 100,
        recipients: s,
    };
    let plan = distribute_sol(&ctx, 100).unwrap();
    assert_eq!((plan[0].to, plan[0].amount), (a, 25));
    assert_eq!((plan[1].to, plan[1].amount), (b, 25));
}

#[test]
fn shares_round_down_and_zero_shares_are_skipped() {
    let (a, b, c) = (addr(1), addr(2), addr(3));
    let ctx = DistributeSol {
        config_key: key(),
        program_id: program(),
        config: config(vec![a, b, c], vec![3333, 0, 1]),
        payer_lamports: 999,
        recipients: slots(&[a, b, c]),
    };
    let plan = distribute_sol(&ctx, 999).unwrap();
    assert_eq!(plan.len(), 1);
    assert_eq!((plan[0].to, plan[0].amount), (a, 332));
}

#[test]
fn native_insufficient_funds() {
    let a = addr(1);
    let ctx = DistributeSol {
        config_key: key(),
        program_id: program(),
        config: config(vec![a], vec![10000]),
        payer_lamports: 999,
        recipients: slots(&[a]),
    };
    assert_eq!(distribute_sol(&ctx, 1000).unwrap_err(), Error::Program(ErrorCode::InsufficientFunds));
}

#[test]
fn oversized_stored_schedule_refused() {
    let r: Vec<Address> = (0..11).map(addr).collect();
    let ctx = DistributeSol {
        config_key: key(),
        program_id: program(),
        config: config(r, vec![0; 11]),
        payer_lamports: 999,
        recipients: slots(&[]),
    };
    assert_eq!(distribute_sol(&ctx, 1).unwrap_err(), Error::Program(ErrorCode::MaxRecipientsExceeded));
}

#[test]
fn shares_fit_detects_overflow() {
    let cfg = config(vec![addr(1)], vec![10000]);
    assert!(shares_fit(&cfg, u64::MAX / 10000));
    assert!(!shares_fit(&cfg, u64::MAX / 10000 + 1));
}

#[test]
fn largest_amount_that_fits_splits_exactly() {
    let a = addr(1);
    let amount = u64::MAX / 10000;
    let ctx = DistributeSol {
        config_key: key(),
        program_id: program(),
        config: config(vec![a], vec![10000]),
        payer_lamports: u64::MAX,
        recipients: slots(&[a]),
    };
    let plan = distribute_sol(&ctx, amount).unwrap();
    assert_eq!(plan[0].amount, amount);
}

#[test]
fn token_recipients_resolved_by_owner_not_address() {
    let (a, b) = (addr(1), addr(2));
    let (ata_a, ata_b) = (addr(11), addr(12));
    let ctx = token_ctx(
        config(vec![a, b], vec![6000, 4000]),
        token_slots(&[(ata_a, token_data(a)), (ata_b, token_data(b))]),
    );
    let plan = distribute_spl_amount(&ctx, 1000).unwrap();
    assert_eq!((plan[0].to, plan[0].amount), (ata_a, 600));
    assert_eq!((plan[1].to, plan[1].amount), (ata_b, 400));
}

#[test]
fn token_slot_at_recipient_address_with_other_owner_refused() {
    let (a, b) = (addr(1), addr(2));
    let ctx = token_ctx(
        config(vec![a, b], vec![6000, 4000]),
        token_slots(&[(a, token_data(b)), (b, token_data(a))]),
    );
    assert_eq!(
        distribute_spl_amount(&ctx, 1000),
        Err(Error::Program(ErrorCode::InvalidRecipient))
    );
}

#[test]
fn token_payer_account_of_other_owner_refused() {
    let a = addr(1);
    let mut ctx = token_ctx(config(vec![a], vec![10000]), token_slots(&[(addr(11), token_data(a))]));
    ctx.from_owner = addr(51);
    assert_eq!(
        distribute_spl_amount(&ctx, 10),
        Err(Error::Program(ErrorCode::InvalidTokenOwner))
    );
}

#[test]
fn token_insufficient_balance() {
    let a = addr(1);
    let ctx = token_ctx(config(vec![a], vec![10000]), token_slots(&[(addr(11), token_data(a))]));
    assert_eq!(
        distribute_spl_amount(&ctx, 1_000_001),
        Err(Error::Program(ErrorCode::InsufficientTokenBalance))
    );
}

#[test]
fn token_slot_count_mismatch_refused() {
    let (a, b) = (addr(1), addr(2));
    let cfg = config(vec![a, b], vec![6000, 4000]);
    let few = token_ctx(cfg.clone(), token_slots(&[(addr(11), token_data(a))]));
    assert_eq!(
        distribute_spl_amount(&few, 1000),
        Err(Error::Program(ErrorCode::InvalidRecipientCount))
    );
    let many = token_ctx(
        cfg,
        token_slots(&[
            (addr(11), token_data(a)),
            (addr(12), token_data(b)),
            (addr(13), token_data(b)),
        ]),
    );
    assert_eq!(
        distribute_spl_amount(&many, 1000),
        Err(Error::Program(ErrorCode::InvalidRecipientCount))
    );
}

#[test]
fn token_slot_with_bad_data_refused() {
    let a = addr(1);
    let mut data = token_data(a);
    data[108] = 0;
    let ctx = token_ctx(config(vec![a], vec![10000]), token_slots(&[(addr(11), data)]));
    assert_eq!(
        distribute_spl_amount(&ctx, 10),
        Err(Error::Account(AccountError::AccountDidNotDeserialize))
    );
    let short = token_ctx(
        config(vec![a], vec![10000]),
        token_slots(&[(addr(11), token_data(a)[..164].to_vec())]),
    );
    assert_eq!(
        distribute_spl_amount(&short, 10),
        Err(Error::Account(AccountError::AccountDidNotDeserialize))
    );
}

#[test]
fn update_of_record_at_wrong_address_refused() {
    let mut upd = UpdateRecipients {
        config: config(vec![addr(1)], vec![100]),
        config_key: addr(4),
        program_id: program(),
        authority: addr(9),
    };
    let r = update_recipients(&mut upd, vec![addr(2)], vec![100]);
    assert_eq!(r, Err(Error::Account(AccountError::ConstraintSeeds)));
    assert_eq!(upd.config.recipients, vec![addr(1)]);
    assert_eq!(upd.config.percentages, vec![100]);
}

#[test]
fn native_distribution_from_record_at_wrong_address_refused() {
    let a = addr(1);
    let ctx = DistributeSol {
        config_key: addr(4),
        program_id: program(),
        config: config(vec![a], vec![10000]),
        payer_lamports: 5000,
        recipients: slots(&[a]),
    };
    assert_eq!(
        distribute_sol(&ctx, 1000).unwrap_err(),
        Error::Account(AccountError::ConstraintSeeds)
    );
}

#[test]
fn checks_come_before_share_overflow() {
    let (a, b) = (addr(1), addr(2));
    let big = u64::MAX / 2;
    let mut ctx = DistributeSol {
        config_key: key(),
        program_id: program(),
        config: config(vec![a, b], vec![6000, 4000]),
        payer_lamports: u64::MAX,
        recipients: slots(&[a]),
    };
    assert_eq!(
        distribute_sol(&ctx, big).unwrap_err(),
        Error::Program(ErrorCode::InvalidRecipientCount)
    );
    ctx.recipients = slots(&[b, a]);
    assert_eq!(
        distribute_sol(&ctx, big).unwrap_err(),
        Error::Program(ErrorCode::InvalidRecipient)
    );
    ctx.payer_lamports = 0;
    assert_eq!(
        distribute_sol(&ctx, big).unwrap_err(),
        Error::Program(ErrorCode::InsufficientFunds)
    );
}

#[test]
fn try_distribute_reports_share_overflow() {
    let a = addr(1);
    let ctx = DistributeSol {
        config_key: key(),
        program_id: program(),
        config: config(vec![a], vec![10000]),
        payer_lamports: u64::MAX,
        recipients: slots(&[a]),
    };
    assert_eq!(try_distribute_sol(&ctx, u64::MAX), Ok(None));
    let plan = try_distribute_sol(&ctx, 70).unwrap().unwrap();
    assert_eq!((plan[0].to, plan[0].amount), (a, 70));
}

#[test]
fn try_token_distribution_reports_overflow_and_failures() {
    let a = addr(1);
    let mut ctx = token_ctx(config(vec![a], vec![10000]), token_slots(&[(addr(11), token_data(a))]));
    ctx.from_amount = u64::MAX;
    assert_eq!(try_distribute_spl_amount(&ctx, u64::MAX), Ok(None));
    ctx.from_owner = addr(51);
    assert_eq!(
        try_distribute_spl_amount(&ctx, u64::MAX),
        Err(Error::Program(ErrorCode::InvalidTokenOwner))
    );
    ctx.from_owner = addr(50);
    let plan = try_distribute_spl_amount(&ctx, 9).unwrap().unwrap();
    assert_eq!((plan[0].to, plan[0].amount), (addr(11), 9));
}
