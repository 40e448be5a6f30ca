use crate::address::Address;
use crate::error::{AccountError, Error, ErrorCode};
use crate::ledger::{create_program_address, program_address};
use vstd::prelude::*;

verus! {

/// The largest number of recipients a schedule may hold.
pub const MAX_RECIPIENTS: usize = 10;

/// Basis points in a whole: 10000 stands for 100%.
pub const BASIS_POINTS: u64 = 10000;

/// The per-authority distribution schedule.
#[derive(Clone, Debug)]
pub struct Config {
    /// The identity allowed to change the schedule.
    pub authority: Address,
    /// The nonce that re-derives this record's address from `authority`.
    pub bump: u8,
    /// Destination identities, in order.
    pub recipients: Vec<Address>,
    /// Basis points paid to the recipient at the same index.
    pub percentages: Vec<u16>,
}

/// The accounts of `initialize`: the signing authority and the nonce of the
/// record's derived address.
#[derive(Clone, Copy, Debug)]
pub struct Initialize {
    pub authority: Address,
    pub bump: u8,
}

/// The accounts of `update_recipients`: the stored record with its address and
/// the program's id, and the signer.
#[derive(Clone, Debug)]
pub struct UpdateRecipients {
    pub config: Config,
    pub config_key: Address,
    pub program_id: Address,
    pub authority: Address,
}

/// Sum of a sequence of basis-point values.
pub open spec fn bps_total(p: Seq<u16>) -> int
    decreases p.len(),
{
    if p.len() == 0 {
        0
    } else {
        bps_total(p.drop_last()) + p.last()
    }
}

/// The verdict of the schedule checks on a pair of lists.
pub open spec fn schedule_check(n_recipients: int, percentages: Seq<u16>) -> Result<(), ErrorCode> {
    if n_recipients != percentages.len() {
        Err(ErrorCode::LengthMismatch)
    } else if bps_total(percentages) > BASIS_POINTS {
        Err(ErrorCode::InvalidTotal)
    } else if n_recipients > MAX_RECIPIENTS {
        Err(ErrorCode::MaxRecipientsExceeded)
    } else {
        Ok(())
    }
}

impl Config {
    /// Equal lengths, at most ten entries, percentages within 100%.
    pub open spec fn wf(&self) -> bool {
        schedule_check(self.recipients@.len() as int, self.percentages@) is Ok
    }
}

/// The seed tag that prefixes every configuration address: `b"config"`.
pub open spec fn config_tag() -> Seq<u8> {
    seq![99u8, 111u8, 110u8, 102u8, 105u8, 103u8]
}

/// The seeds of the configuration record of `authority`.
pub open spec fn config_seeds(authority: Seq<u8>, bump: u8) -> Seq<Seq<u8>> {
    seq![config_tag(), authority, seq![bump]]
}

/// Whether `key` is the address derived for `config` under `program_id`.
pub open spec fn config_address_ok(config: &Config, key: Seq<u8>, program_id: Seq<u8>) -> bool {
    program_address(config_seeds(config.authority@, config.bump), program_id) == Some(key)
}

proof fn lemma_bps_total_prefix(p: Seq<u16>, i: int, j: int)
    requires
        0 <= i <= j <= p.len(),
    ensures
        bps_total(p.subrange(0, i)) <= bps_total(p.subrange(0, j)),
    decreases j - i,
{
    if i < j {
        lemma_bps_total_prefix(p, i, j - 1);
        assert(p.subrange(0, j).drop_last() =~= p.subrange(0, j - 1));
    }
}

/// Checks a schedule: equal lengths, then a total of at most 100%, then at most
/// ten recipients.
pub fn validate_schedule(recipients: &Vec<Address>, percentages: &Vec<u16>) -> (r: Result<
    (),
    ErrorCode,
>)
    ensures
        r == schedule_check(recipients@.len() as int, percentages@),
{
    if recipients.len() != percentages.len() {
        return Err(ErrorCode::LengthMismatch);
    }
    let ghost p = percentages@;
    let mut total: u64 = 0;
    let mut i: usize = 0;
    while i < percentages.len()
        invariant
            i <= p.len(),
            p == percentages@,
            recipients@.len() == p.len(),
            total == bps_total(p.subrange(0, i as int)),
            total <= BASIS_POINTS,
        decreases p.len() - i,
    {
        assert(p.subrange(0, i as int + 1).drop_last() =~= p.subrange(0, i as int));
        assert(p.subrange(0, i as int + 1).last() == p[i as int]);
        total = total + percentages[i] as u64;
        i = i + 1;
        assert(total == bps_total(p.subrange(0, i as int)));
        if total > BASIS_POINTS {
            proof {
                lemma_bps_total_prefix(p, i as int, p.len() as int);
                assert(p.subrange(0, p.len() as int) =~= p);
                assert(bps_total(p) > BASIS_POINTS);
            }
            return Err(ErrorCode::InvalidTotal);
        }
    }
    assert(p.subrange(0, p.len() as int) =~= p);
    if recipients.len() > MAX_RECIPIENTS {
        return Err(ErrorCode::MaxRecipientsExceeded);
    }
    Ok(())
}

/// Creates the schedule of `ctx.authority`: fails as `validate_schedule` does,
/// and otherwise records the authority, the nonce and both lists.
pub fn initialize(ctx: &Initialize, recipients: Vec<Address>, percentages: Vec<u16>) -> (r: Result<
    Config,
    ErrorCode,
>)
    ensures
        r is Ok <==> schedule_check(recipients@.len() as int, percentages@) is Ok,
        r matches Err(e) ==> schedule_check(recipients@.len() as int, percentages@) == Err::<(), ErrorCode>(e),
        r matches Ok(c) ==> c.authority == ctx.authority && c.bump == ctx.bump && c.recipients@
            == recipients@ && c.percentages@ == percentages@ && c.wf(),
{
    match validate_schedule(&recipients, &percentages) {
        Err(e) => Err(e),
        Ok(()) => Ok(Config { authority: ctx.authority, bump: ctx.bump, recipients, percentages }),
    }
}

/// Replaces both lists of the stored schedule, only when the record sits at the
/// address derived from its authority and nonce, the signer is that authority,
/// and the new lists pass `validate_schedule`; on failure nothing changes.
pub fn update_recipients(
    ctx: &mut UpdateRecipients,
    recipients: Vec<Address>,
    percentages: Vec<u16>,
) -> (r: Result<(), Error>)
    ensures
        !config_address_ok(&old(ctx).config, old(ctx).config_key@, old(ctx).program_id@) ==> r
            == Err::<(), Error>(Error::Account(AccountError::ConstraintSeeds)),
        config_address_ok(&old(ctx).config, old(ctx).config_key@, old(ctx).program_id@)
            && old(ctx).config.authority@ != old(ctx).authority@ ==> r == Err::<(), Error>(
            Error::Account(AccountError::ConstraintHasOne),
        ),
        config_address_ok(&old(ctx).config, old(ctx).config_key@, old(ctx).program_id@)
            && old(ctx).config.authority@ == old(ctx).authority@ ==> match schedule_check(
            recipients@.len() as int,
            percentages@,
        ) {
            Ok(()) => r is Ok,
            Err(e) => r == Err::<(), Error>(Error::Program(e)),
        },
        r is Ok ==> final(ctx).config.recipients@ == recipients@ && final(ctx).config.percentages@
            == percentages@ && final(ctx).config.authority == old(ctx).config.authority
            && final(ctx).config.bump == old(ctx).config.bump && final(ctx).authority == old(
            ctx,
        ).authority && final(ctx).config_key == old(ctx).config_key && final(ctx).program_id == old(
            ctx,
        ).program_id && final(ctx).config.wf(),
        r is Err ==> *final(ctx) == *old(ctx),
{
    if let Err(e) = resolve(&ctx.config, &ctx.config_key, &ctx.program_id) {
        return Err(Error::Account(e));
    }
    if !(ctx.config.authority == ctx.authority) {
        return Err(Error::Account(AccountError::ConstraintHasOne));
    }
    match validate_schedule(&recipients, &percentages) {
        Err(e) => Err(Error::Program(e)),
        Ok(()) => {
            ctx.config.recipients = recipients;
            ctx.config.percentages = percentages;
            Ok(())
        },
    }
}

/// Checks that `key` is the address re-derived from the record's authority and
/// stored nonce, so that no unrelated record can stand in for it.
pub fn resolve(config: &Config, key: &Address, program_id: &Address) -> (r: Result<(), AccountError>)
    ensures
        r is Ok <==> config_address_ok(config, key@, program_id@),
        r matches Err(e) ==> e == AccountError::ConstraintSeeds,
{
    let mut authority: Vec<u8> = Vec::new();
    let mut i: usize = 0;
    while i < 32
        invariant
            i <= 32,
            authority@ =~= config.authority@.subrange(0, i as int),
            config.authority@.len() == 32,
        decreases 32 - i,
    {
        authority.push(config.authority.bytes[i]);
        i = i + 1;
    }
    let tag: Vec<u8> = vec![99u8, 111u8, 110u8, 102u8, 105u8, 103u8];
    let nonce: Vec<u8> = vec![config.bump];
    let seeds: Vec<Vec<u8>> = vec![tag, authority, nonce];
    proof {
        assert(authority@ =~= config.authority@);
        assert(seeds.deep_view() =~= config_seeds(config.authority@, config.bump)) by {
            assert(seeds.deep_view()[0] =~= config_tag());
            assert(seeds.deep_view()[1] =~= config.authority@);
            assert(seeds.deep_view()[2] =~= seq![config.bump]);
        }
    }
    match create_program_address(&seeds, program_id) {
        Ok(a) => {
            if a == *key {
                Ok(())
            } else {
                Err(AccountError::ConstraintSeeds)
            }
        },
        Err(_) => Err(AccountError::ConstraintSeeds),
    }
}

/// Any pair of lists of equal length, at most ten long, whose percentages add
/// up to at most 100%, is accepted by `initialize` and by `update_recipients`.
pub proof fn law_valid_schedule_accepted(recipients: Seq<Address>, percentages: Seq<u16>)
    requires
        recipients.len() == percentages.len(),
        recipients.len() <= MAX_RECIPIENTS,
        bps_total(percentages) <= BASIS_POINTS,
    ensures
        schedule_check(recipients.len() as int, percentages) is Ok,
{
}

/// Lists of different lengths are refused with `LengthMismatch`, whatever the
/// percentages.
pub proof fn law_length_mismatch_refused(recipients: Seq<Address>, percentages: Seq<u16>)
    requires
        recipients.len() != percentages.len(),
    ensures
        schedule_check(recipients.len() as int, percentages) == Err::<(), ErrorCode>(
            ErrorCode::LengthMismatch,
        ),
{
}

/// Lists of equal length whose percentages add up to more than 100% are refused
/// with `InvalidTotal`, whatever that length.
pub proof fn law_excess_total_refused(recipients: Seq<Address>, percentages: Seq<u16>)
    requires
        recipients.len() == percentages.len(),
        bps_total(percentages) > BASIS_POINTS,
    ensures
        schedule_check(recipients.len() as int, percentages) == Err::<(), ErrorCode>(
            ErrorCode::InvalidTotal,
        ),
{
}

} // verus!
