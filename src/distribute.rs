use crate::address::{incinerator, incinerator_bytes, Address};
use crate::config::{bps_total, config_address_ok, resolve, Config, BASIS_POINTS, MAX_RECIPIENTS};
use crate::error::{AccountError, Error, ErrorCode};
use crate::ledger::{read_token_owner, token_account_owner};
use vstd::prelude::*;

verus! {

/// The number of destination slots every distribution names.
pub const SLOT_COUNT: usize = 10;

/// One transfer of a distribution plan.
#[derive(Clone, Copy, Debug, PartialEq, Eq)]
pub struct Payout {
    /// The account credited.
    pub to: Address,
    /// How much it receives.
    pub amount: u64,
}

/// The accounts of `distribute_sol`: the stored schedule with its address and
/// the program's id, the payer's native balance, and ten destination slots,
/// unused ones holding the burn address.
#[derive(Clone, Debug)]
pub struct DistributeSol {
    pub config: Config,
    pub config_key: Address,
    pub program_id: Address,
    pub payer_lamports: u64,
    pub recipients: [Address; 10],
}

/// One destination slot of a token distribution: the holding account's
/// address and its data.
#[derive(Clone, Debug)]
pub struct TokenSlot {
    pub key: Address,
    pub data: Vec<u8>,
}

/// The accounts of `distribute_spl_amount`: the stored schedule with its
/// address and the program's id, the signer, the owner and balance of the
/// payer's holding account, and ten destination holding accounts, unused ones
/// at the burn address.
#[derive(Clone, Debug)]
pub struct DistributeSplAmount {
    pub config: Config,
    pub config_key: Address,
    pub program_id: Address,
    pub payer: Address,
    pub from_owner: Address,
    pub from_amount: u64,
    pub recipient_atas: [TokenSlot; 10],
}

/// Whether a slot names a real destination rather than the burn address.
pub open spec fn is_used(a: Address) -> bool {
    a@ != incinerator_bytes()
}

/// The slots that name real destinations, in their order.
pub open spec fn used_slots(s: Seq<Address>) -> Seq<Address>
    decreases s.len(),
{
    if s.len() == 0 {
        seq![]
    } else if is_used(s.last()) {
        used_slots(s.drop_last()).push(s.last())
    } else {
        used_slots(s.drop_last())
    }
}

/// The part of `amount` owed for `bps` basis points, rounded down.
pub open spec fn share(amount: u64, bps: u16) -> int {
    (amount * bps) / (BASIS_POINTS as int)
}

/// Whether every product `amount * percentages[i]` fits in 64 bits.
pub open spec fn products_fit(percentages: Seq<u16>, amount: u64) -> bool {
    forall|i: int| 0 <= i < percentages.len() ==> #[trigger] (amount * percentages[i]) <= u64::MAX
}

/// The transfers that pay the first `n` entries of the schedule to `to`,
/// leaving out every zero share.
pub open spec fn payouts(to: Seq<Address>, percentages: Seq<u16>, amount: u64, n: nat) -> Seq<Payout>
    decreases n,
{
    if n == 0 {
        seq![]
    } else {
        let rest = payouts(to, percentages, amount, (n - 1) as nat);
        let s = share(amount, percentages[n - 1]);
        if s > 0 {
            rest.push(Payout { to: to[n - 1], amount: s as u64 })
        } else {
            rest
        }
    }
}

/// Total amount moved by a plan.
pub open spec fn plan_total(plan: Seq<Payout>) -> int
    decreases plan.len(),
{
    if plan.len() == 0 {
        0
    } else {
        plan_total(plan.drop_last()) + plan.last().amount
    }
}

/// Sum of the shares of the first `n` entries of the schedule.
pub open spec fn shares_total(percentages: Seq<u16>, amount: u64, n: nat) -> int
    decreases n,
{
    if n == 0 {
        0
    } else {
        shares_total(percentages, amount, (n - 1) as nat) + share(amount, percentages[n - 1])
    }
}

/// The checks of a native distribution of `amount`, in order: the record's
/// address, the schedule's size, the payer's balance, the number of used slots,
/// and each used slot against the recipient at its position.
pub open spec fn sol_checks(ctx: &DistributeSol, amount: u64) -> Result<(), Error> {
    let n = ctx.config.recipients@.len();
    let used = used_slots(ctx.recipients@);
    if !config_address_ok(&ctx.config, ctx.config_key@, ctx.program_id@) {
        Err(Error::Account(AccountError::ConstraintSeeds))
    } else if n > MAX_RECIPIENTS {
        Err(Error::Program(ErrorCode::MaxRecipientsExceeded))
    } else if ctx.payer_lamports < amount {
        Err(Error::Program(ErrorCode::InsufficientFunds))
    } else if used.len() != n {
        Err(Error::Program(ErrorCode::InvalidRecipientCount))
    } else if exists|i: int| 0 <= i < n && (#[trigger] used[i])@ != ctx.config.recipients@[i]@ {
        Err(Error::Program(ErrorCode::InvalidRecipient))
    } else {
        Ok(())
    }
}

/// The outcome of a native distribution of `amount`.
pub open spec fn sol_outcome(ctx: &DistributeSol, amount: u64) -> Result<Seq<Payout>, Error> {
    match sol_checks(ctx, amount) {
        Err(e) => Err(e),
        Ok(()) => Ok(
            payouts(
                used_slots(ctx.recipients@),
                ctx.config.percentages@,
                amount,
                ctx.config.recipients@.len(),
            ),
        ),
    }
}

/// Whether `amount` can be split by the schedule without a product overflowing
/// 64 bits.
pub fn shares_fit(config: &Config, amount: u64) -> (r: bool)
    ensures
        r == products_fit(config.percentages@, amount),
{
    let mut i: usize = 0;
    while i < config.percentages.len()
        invariant
            i <= config.percentages@.len(),
            forall|j: int| 0 <= j < i ==> #[trigger] (amount * config.percentages@[j]) <= u64::MAX,
        decreases config.percentages@.len() - i,
    {
        if amount.checked_mul(config.percentages[i] as u64).is_none() {
            return false;
        }
        i = i + 1;
    }
    true
}

proof fn lemma_share_bounds(amount: u64, bps: u16)
    ensures
        0 <= share(amount, bps),
        share(amount, bps) * 10000 <= amount * bps,
{
    assert(0 <= amount * bps) by (nonlinear_arith);
    assert(share(amount, bps) * 10000 <= amount * bps) by (nonlinear_arith)
        requires
            share(amount, bps) == (amount * bps) / 10000,
    ;
}

/// Builds the transfers that pay the first `n` entries of the schedule to `to`.
fn plan_payouts(to: &Vec<Address>, percentages: &Vec<u16>, amount: u64, n: usize) -> (r: Vec<
    Payout,
>)
    requires
        n <= to@.len(),
        n <= percentages@.len(),
        products_fit(percentages@, amount),
    ensures
        r@ == payouts(to@, percentages@, amount, n as nat),
{
    let mut plan: Vec<Payout> = Vec::new();
    let mut k: usize = 0;
    while k < n
        invariant
            k <= n,
            n <= to@.len(),
            n <= percentages@.len(),
            products_fit(percentages@, amount),
            plan@ == payouts(to@, percentages@, amount, k as nat),
        decreases n - k,
    {
        let p = percentages[k] as u64;
        assert(amount * percentages@[k as int] <= u64::MAX);
        let s = amount * p / BASIS_POINTS;
        if s > 0 {
            plan.push(Payout { to: to[k], amount: s });
        }
        k = k + 1;
    }
    plan
}

/// Runs the checks of a native distribution and, when they pass, returns the
/// used slots in order.
fn sol_destinations(ctx: &DistributeSol, amount: u64) -> (r: Result<Vec<Address>, Error>)
    ensures
        match r {
            Ok(d) => sol_checks(ctx, amount) is Ok && d@ == used_slots(ctx.recipients@),
            Err(e) => sol_checks(ctx, amount) == Err::<(), Error>(e),
        },
{
    if let Err(e) = resolve(&ctx.config, &ctx.config_key, &ctx.program_id) {
        return Err(Error::Account(e));
    }
    let n = ctx.config.recipients.len();
    if n > MAX_RECIPIENTS {
        return Err(Error::Program(ErrorCode::MaxRecipientsExceeded));
    }
    if ctx.payer_lamports < amount {
        return Err(Error::Program(ErrorCode::InsufficientFunds));
    }
    let sentinel = incinerator();
    let ghost slots = ctx.recipients@;
    let mut dests: Vec<Address> = Vec::new();
    let mut i: usize = 0;
    while i < SLOT_COUNT
        invariant
            i <= SLOT_COUNT,
            slots == ctx.recipients@,
            slots.len() == SLOT_COUNT,
            sentinel@ == incinerator_bytes(),
            dests@ == used_slots(slots.subrange(0, i as int)),
        decreases SLOT_COUNT - i,
    {
        let a = ctx.recipients[i];
        assert(slots.subrange(0, i as int + 1).drop_last() =~= slots.subrange(0, i as int));
        assert(slots.subrange(0, i as int + 1).last() == a);
        if !(a == sentinel) {
            dests.push(a);
        }
        i = i + 1;
    }
    assert(slots.subrange(0, SLOT_COUNT as int) =~= slots);
    if dests.len() != n {
        return Err(Error::Program(ErrorCode::InvalidRecipientCount));
    }
    let mut k: usize = 0;
    while k < n
        invariant
            k <= n,
            n == ctx.config.recipients@.len(),
            dests@ == used_slots(ctx.recipients@),
            dests@.len() == n,
            config_address_ok(&ctx.config, ctx.config_key@, ctx.program_id@),
            ctx.payer_lamports >= amount,
            n <= MAX_RECIPIENTS,
            forall|j: int| 0 <= j < k ==> (#[trigger] dests@[j])@ == ctx.config.recipients@[j]@,
        decreases n - k,
    {
        if !(dests[k] == ctx.config.recipients[k]) {
            assert((dests@[k as int])@ != ctx.config.recipients@[k as int]@);
            return Err(Error::Program(ErrorCode::InvalidRecipient));
        }
        k = k + 1;
    }
    Ok(dests)
}

/// Splits `amount` of the native asset by the schedule. All checks come first:
/// the record must sit at the address derived from its authority and nonce, the
/// payer must cover `amount`, and the used slots, in order, must be exactly the
/// recipients. Then each recipient receives its share rounded down; zero shares
/// are left out of the plan. The shares' products must fit in 64 bits once the
/// checks pass.
pub fn distribute_sol(ctx: &DistributeSol, amount: u64) -> (r: Result<Vec<Payout>, Error>)
    requires
        ctx.config.recipients@.len() == ctx.config.percentages@.len(),
        sol_checks(ctx, amount) is Ok ==> products_fit(ctx.config.percentages@, amount),
    ensures
        match r {
            Ok(plan) => sol_outcome(ctx, amount) == Ok::<Seq<Payout>, Error>(plan@),
            Err(e) => sol_outcome(ctx, amount) == Err::<Seq<Payout>, Error>(e),
        },
{
    match sol_destinations(ctx, amount) {
        Err(e) => Err(e),
        Ok(dests) => Ok(
            plan_payouts(&dests, &ctx.config.percentages, amount, ctx.config.recipients.len()),
        ),
    }
}

/// `distribute_sol` for any amount: the checks' failure as it comes, `None`
/// where they pass but a share's product overflows 64 bits, else the plan.
pub fn try_distribute_sol(ctx: &DistributeSol, amount: u64) -> (r: Result<
    Option<Vec<Payout>>,
    Error,
>)
    requires
        ctx.config.recipients@.len() == ctx.config.percentages@.len(),
    ensures
        match sol_checks(ctx, amount) {
            Err(e) => r == Err::<Option<Vec<Payout>>, Error>(e),
            Ok(()) => if products_fit(ctx.config.percentages@, amount) {
                r matches Ok(Some(plan)) && sol_outcome(ctx, amount) == Ok::<Seq<Payout>, Error>(
                    plan@,
                )
            } else {
                r matches Ok(None)
            },
        },
{
    match sol_destinations(ctx, amount) {
        Err(e) => Err(e),
        Ok(_) => {
            if shares_fit(&ctx.config, amount) {
                match distribute_sol(ctx, amount) {
                    Ok(plan) => Ok(Some(plan)),
                    Err(e) => Err(e),
                }
            } else {
                Ok(None)
            }
        },
    }
}

/// Walks destination slots of a token distribution: how many used slots were
/// accepted, or the first failure. A used slot must hold a token account whose
/// recorded owner is the recipient at the next position.
pub open spec fn token_walk(slots: Seq<TokenSlot>, recipients: Seq<Address>) -> Result<nat, Error>
    decreases slots.len(),
{
    if slots.len() == 0 {
        Ok(0)
    } else {
        match token_walk(slots.drop_last(), recipients) {
            Err(e) => Err(e),
            Ok(idx) => {
                let slot = slots.last();
                if !is_used(slot.key) {
                    Ok(idx)
                } else {
                    match token_account_owner(slot.data@) {
                        None => Err(Error::Account(AccountError::AccountDidNotDeserialize)),
                        Some(owner) => {
                            if idx >= recipients.len() {
                                Err(Error::Program(ErrorCode::InvalidRecipientCount))
                            } else if owner != recipients[idx as int]@ {
                                Err(Error::Program(ErrorCode::InvalidRecipient))
                            } else {
                                Ok(idx + 1)
                            }
                        },
                    }
                }
            },
        }
    }
}

/// The addresses of the used token slots, in order.
pub open spec fn used_token_keys(slots: Seq<TokenSlot>) -> Seq<Address>
    decreases slots.len(),
{
    if slots.len() == 0 {
        seq![]
    } else if is_used(slots.last().key) {
        used_token_keys(slots.drop_last()).push(slots.last().key)
    } else {
        used_token_keys(slots.drop_last())
    }
}

/// The checks of a token distribution of `amount`, in order: the record's
/// address, the schedule's size, the payer's holding account (owner, then
/// balance), the walk over the slots, and the count of accepted slots.
pub open spec fn spl_checks(ctx: &DistributeSplAmount, amount: u64) -> Result<(), Error> {
    let n = ctx.config.recipients@.len();
    if !config_address_ok(&ctx.config, ctx.config_key@, ctx.program_id@) {
        Err(Error::Account(AccountError::ConstraintSeeds))
    } else if n > MAX_RECIPIENTS {
        Err(Error::Program(ErrorCode::MaxRecipientsExceeded))
    } else if ctx.from_owner@ != ctx.payer@ {
        Err(Error::Program(ErrorCode::InvalidTokenOwner))
    } else if ctx.from_amount < amount {
        Err(Error::Program(ErrorCode::InsufficientTokenBalance))
    } else {
        match token_walk(ctx.recipient_atas@, ctx.config.recipients@) {
            Err(e) => Err(e),
            Ok(idx) => {
                if idx != n {
                    Err(Error::Program(ErrorCode::InvalidRecipientCount))
                } else {
                    Ok(())
                }
            },
        }
    }
}

/// The outcome of a token distribution of `amount`: the shares go to the
/// used holding accounts.
pub open spec fn spl_outcome(ctx: &DistributeSplAmount, amount: u64) -> Result<Seq<Payout>, Error> {
    match spl_checks(ctx, amount) {
        Err(e) => Err(e),
        Ok(()) => Ok(
            payouts(
                used_token_keys(ctx.recipient_atas@),
                ctx.config.percentages@,
                amount,
                ctx.config.recipients@.len(),
            ),
        ),
    }
}

proof fn lemma_token_walk_err_stays(
    slots: Seq<TokenSlot>,
    recipients: Seq<Address>,
    i: int,
    j: int,
    e: Error,
)
    requires
        0 <= i <= j <= slots.len(),
        token_walk(slots.subrange(0, i), recipients) == Err::<nat, Error>(e),
    ensures
        token_walk(slots.subrange(0, j), recipients) == Err::<nat, Error>(e),
    decreases j - i,
{
    if i < j {
        lemma_token_walk_err_stays(slots, recipients, i, j - 1, e);
        assert(slots.subrange(0, j).drop_last() =~= slots.subrange(0, j - 1));
    }
}

/// Runs the checks of a token distribution and, when they pass, returns the
/// addresses of the used holding accounts in order.
fn spl_destinations(ctx: &DistributeSplAmount, amount: u64) -> (r: Result<Vec<Address>, Error>)
    ensures
        match r {
            Ok(d) => spl_checks(ctx, amount) is Ok && d@ == used_token_keys(ctx.recipient_atas@)
                && d@.len() == ctx.config.recipients@.len(),
            Err(e) => spl_checks(ctx, amount) == Err::<(), Error>(e),
        },
{
    if let Err(e) = resolve(&ctx.config, &ctx.config_key, &ctx.program_id) {
        return Err(Error::Account(e));
    }
    let n = ctx.config.recipients.len();
    if n > MAX_RECIPIENTS {
        return Err(Error::Program(ErrorCode::MaxRecipientsExceeded));
    }
    if !(ctx.from_owner == ctx.payer) {
        return Err(Error::Program(ErrorCode::InvalidTokenOwner));
    }
    if ctx.from_amount < amount {
        return Err(Error::Program(ErrorCode::InsufficientTokenBalance));
    }
    let sentinel = incinerator();
    let ghost slots = ctx.recipient_atas@;
    let ghost recips = ctx.config.recipients@;
    let mut dests: Vec<Address> = Vec::new();
    let mut i: usize = 0;
    while i < SLOT_COUNT
        invariant
            i <= SLOT_COUNT,
            slots == ctx.recipient_atas@,
            slots.len() == SLOT_COUNT,
            recips == ctx.config.recipients@,
            n == recips.len(),
            sentinel@ == incinerator_bytes(),
            config_address_ok(&ctx.config, ctx.config_key@, ctx.program_id@),
            ctx.from_owner@ == ctx.payer@,
            ctx.from_amount >= amount,
            n <= MAX_RECIPIENTS,
            dests@.len() <= n,
            dests@ == used_token_keys(slots.subrange(0, i as int)),
            token_walk(slots.subrange(0, i as int), recips) == Ok::<nat, Error>(dests@.len()),
        decreases SLOT_COUNT - i,
    {
        let slot = &ctx.recipient_atas[i];
        assert(slots.subrange(0, i as int + 1).drop_last() =~= slots.subrange(0, i as int));
        assert(slots.subrange(0, i as int + 1).last() == *slot);
        if !(slot.key == sentinel) {
            match read_token_owner(slot.data.as_slice()) {
                Err(_) => {
                    proof {
                        lemma_token_walk_err_stays(slots, recips, i + 1, SLOT_COUNT as int, Error::Account(AccountError::AccountDidNotDeserialize));
                        assert(slots.subrange(0, SLOT_COUNT as int) =~= slots);
                    }
                    return Err(Error::Account(AccountError::AccountDidNotDeserialize));
                },
                Ok(owner) => {
                    let idx = dests.len();
                    if idx >= n {
                        proof {
                            lemma_token_walk_err_stays(slots, recips, i + 1, SLOT_COUNT as int, Error::Program(ErrorCode::InvalidRecipientCount));
                            assert(slots.subrange(0, SLOT_COUNT as int) =~= slots);
                        }
                        return Err(Error::Program(ErrorCode::InvalidRecipientCount));
                    }
                    if !(owner == ctx.config.recipients[idx]) {
                        proof {
                            lemma_token_walk_err_stays(slots, recips, i + 1, SLOT_COUNT as int, Error::Program(ErrorCode::InvalidRecipient));
                            assert(slots.subrange(0, SLOT_COUNT as int) =~= slots);
                        }
                        return Err(Error::Program(ErrorCode::InvalidRecipient));
                    }
                    dests.push(slot.key);
                },
            }
        }
        i = i + 1;
    }
    assert(slots.subrange(0, SLOT_COUNT as int) =~= slots);
    if dests.len() != n {
        return Err(Error::Program(ErrorCode::InvalidRecipientCount));
    }
    Ok(dests)
}

/// Splits `amount` of a token by the schedule. All checks come first: the
/// record must sit at the address derived from its authority and nonce, the
/// payer's holding account must belong to the signer and cover `amount`, and
/// each used slot, in order, must hold a token account whose recorded owner (not
/// its address) is the recipient at the next position, with as many used slots
/// as recipients. Then each used holding account receives its share rounded
/// down. The shares' products must fit in 64 bits once the checks pass.
pub fn distribute_spl_amount(ctx: &DistributeSplAmount, amount: u64) -> (r: Result<Vec<Payout>, Error>)
    requires
        ctx.config.recipients@.len() == ctx.config.percentages@.len(),
        spl_checks(ctx, amount) is Ok ==> products_fit(ctx.config.percentages@, amount),
    ensures
        match r {
            Ok(plan) => spl_outcome(ctx, amount) == Ok::<Seq<Payout>, Error>(plan@),
            Err(e) => spl_outcome(ctx, amount) == Err::<Seq<Payout>, Error>(e),
        },
{
    match spl_destinations(ctx, amount) {
        Err(e) => Err(e),
        Ok(dests) => Ok(
            plan_payouts(&dests, &ctx.config.percentages, amount, ctx.config.recipients.len()),
        ),
    }
}

/// `distribute_spl_amount` for any amount: the checks' failure as it comes,
/// `None` where they pass but a share's product overflows 64 bits, else the plan.
pub fn try_distribute_spl_amount(ctx: &DistributeSplAmount, amount: u64) -> (r: Result<
    Option<Vec<Payout>>,
    Error,
>)
    requires
        ctx.config.recipients@.len() == ctx.config.percentages@.len(),
    ensures
        match spl_checks(ctx, amount) {
            Err(e) => r == Err::<Option<Vec<Payout>>, Error>(e),
            Ok(()) => if products_fit(ctx.config.percentages@, amount) {
                r matches Ok(Some(plan)) && spl_outcome(ctx, amount) == Ok::<Seq<Payout>, Error>(
                    plan@,
                )
            } else {
                r matches Ok(None)
            },
        },
{
    match spl_destinations(ctx, amount) {
        Err(e) => Err(e),
        Ok(_) => {
            if shares_fit(&ctx.config, amount) {
                match distribute_spl_amount(ctx, amount) {
                    Ok(plan) => Ok(Some(plan)),
                    Err(e) => Err(e),
                }
            } else {
                Ok(None)
            }
        },
    }
}

proof fn lemma_plan_total(to: Seq<Address>, percentages: Seq<u16>, amount: u64, n: nat)
    requires
        n <= percentages.len(),
        products_fit(percentages, amount),
    ensures
        plan_total(payouts(to, percentages, amount, n)) == shares_total(percentages, amount, n),
    decreases n,
{
    if n > 0 {
        lemma_plan_total(to, percentages, amount, (n - 1) as nat);
        let rest = payouts(to, percentages, amount, (n - 1) as nat);
        let s = share(amount, percentages[n - 1]);
        lemma_share_bounds(amount, percentages[n - 1]);
        if s > 0 {
            assert(amount * percentages[n - 1] <= u64::MAX);
            assert(s <= u64::MAX) by (nonlinear_arith)
                requires
                    s * 10000 <= amount * percentages[n - 1],
                    amount * percentages[n - 1] <= u64::MAX,
                    s > 0;
            let x = Payout { to: to[n - 1], amount: s as u64 };
            assert(rest.push(x).drop_last() =~= rest);
        }
    }
}

proof fn lemma_shares_bound(percentages: Seq<u16>, amount: u64, n: nat)
    requires
        n <= percentages.len(),
    ensures
        shares_total(percentages, amount, n) * 10000 <= amount * bps_total(
            percentages.subrange(0, n as int),
        ),
    decreases n,
{
    if n > 0 {
        lemma_shares_bound(percentages, amount, (n - 1) as nat);
        lemma_share_bounds(amount, percentages[n - 1]);
        let prefix = percentages.subrange(0, n as int);
        assert(prefix.drop_last() =~= percentages.subrange(0, n - 1));
        let a = shares_total(percentages, amount, (n - 1) as nat);
        let b = bps_total(percentages.subrange(0, n - 1));
        let s = share(amount, percentages[n - 1]);
        let p = percentages[n - 1] as int;
        assert(amount * (b + p) == amount * b + amount * p) by (nonlinear_arith);
        assert((a + s) * 10000 == a * 10000 + s * 10000) by (nonlinear_arith);
    }
}

/// When the record sits at its derived address, the used slots are exactly the
/// configured recipients in order, the payer has the funds and the schedule is
/// valid, a native distribution succeeds and pays recipient `i` the share
/// `amount * percentages[i] / 10000` rounded down (zero shares are skipped); the
/// total paid never exceeds `amount`, and the rest stays with the payer.
pub proof fn law_native_split(ctx: &DistributeSol, amount: u64)
    requires
        ctx.config.wf(),
        config_address_ok(&ctx.config, ctx.config_key@, ctx.program_id@),
        ctx.payer_lamports >= amount,
        products_fit(ctx.config.percentages@, amount),
        used_slots(ctx.recipients@).len() == ctx.config.recipients@.len(),
        forall|i: int|
            0 <= i < ctx.config.recipients@.len() ==> (#[trigger] used_slots(ctx.recipients@)[i])@
                == ctx.config.recipients@[i]@,
    ensures
        sol_outcome(ctx, amount) == Ok::<Seq<Payout>, Error>(
            payouts(
                used_slots(ctx.recipients@),
                ctx.config.percentages@,
                amount,
                ctx.config.recipients@.len(),
            ),
        ),
        plan_total(
            payouts(
                used_slots(ctx.recipients@),
                ctx.config.percentages@,
                amount,
                ctx.config.recipients@.len(),
            ),
        ) == shares_total(ctx.config.percentages@, amount, ctx.config.recipients@.len()),
        shares_total(ctx.config.percentages@, amount, ctx.config.recipients@.len()) <= amount,
{
    let p = ctx.config.percentages@;
    let n = ctx.config.recipients@.len();
    lemma_plan_total(used_slots(ctx.recipients@), p, amount, n);
    lemma_shares_bound(p, amount, n);
    assert(p.subrange(0, n as int) =~= p);
    assert(amount * bps_total(p) <= amount * 10000) by (nonlinear_arith)
        requires
            bps_total(p) <= 10000;
}

/// A native distribution from a record at its derived address, whose payer
/// covers the amount but whose count of used slots differs from the number of
/// recipients, fails with `InvalidRecipientCount`, whatever the amount.
pub proof fn law_native_count_mismatch(ctx: &DistributeSol, amount: u64)
    requires
        ctx.config.wf(),
        config_address_ok(&ctx.config, ctx.config_key@, ctx.program_id@),
        ctx.payer_lamports >= amount,
        used_slots(ctx.recipients@).len() != ctx.config.recipients@.len(),
    ensures
        sol_outcome(ctx, amount) == Err::<Seq<Payout>, Error>(
            Error::Program(ErrorCode::InvalidRecipientCount),
        ),
{
}

/// A native distribution in which the recipient at position `i` sits at another
/// used position `j`, while position `i` holds someone else, fails with
/// `InvalidRecipient`, whatever the amount.
pub proof fn law_native_misplaced_recipient(ctx: &DistributeSol, amount: u64, i: int, j: int)
    requires
        ctx.config.wf(),
        config_address_ok(&ctx.config, ctx.config_key@, ctx.program_id@),
        ctx.payer_lamports >= amount,
        used_slots(ctx.recipients@).len() == ctx.config.recipients@.len(),
        0 <= i < ctx.config.recipients@.len(),
        0 <= j < ctx.config.recipients@.len(),
        i != j,
        used_slots(ctx.recipients@)[j]@ == ctx.config.recipients@[i]@,
        used_slots(ctx.recipients@)[i]@ != ctx.config.recipients@[i]@,
    ensures
        sol_outcome(ctx, amount) == Err::<Seq<Payout>, Error>(
            Error::Program(ErrorCode::InvalidRecipient),
        ),
{
}

/// A token distribution from a record at its derived address, out of a holding
/// account that the signer does not own, fails with `InvalidTokenOwner`,
/// whatever the amount.
pub proof fn law_token_owner_checked(ctx: &DistributeSplAmount, amount: u64)
    requires
        ctx.config.wf(),
        config_address_ok(&ctx.config, ctx.config_key@, ctx.program_id@),
        ctx.from_owner@ != ctx.payer@,
    ensures
        spl_outcome(ctx, amount) == Err::<Seq<Payout>, Error>(
            Error::Program(ErrorCode::InvalidTokenOwner),
        ),
{
}

/// Token recipients are recognised by the owner recorded in each holding
/// account, not by the account's address: two slot arrays with the same data
/// and the same unused slots are walked alike, to the same count or the same
/// error.
pub proof fn law_token_recipient_by_owner(
    s: Seq<TokenSlot>,
    t: Seq<TokenSlot>,
    recipients: Seq<Address>,
)
    requires
        s.len() == t.len(),
        forall|i: int|
            0 <= i < s.len() ==> (#[trigger] s[i]).data@ == t[i].data@ && is_used(s[i].key)
                == is_used(t[i].key),
    ensures
        token_walk(s, recipients) == token_walk(t, recipients),
    decreases s.len(),
{
    if s.len() > 0 {
        let s0 = s.drop_last();
        let t0 = t.drop_last();
        assert forall|i: int| 0 <= i < s0.len() implies (#[trigger] s0[i]).data@ == t0[i].data@
            && is_used(s0[i].key) == is_used(t0[i].key) by {
            assert(s0[i] == s[i]);
            assert(t0[i] == t[i]);
        }
        law_token_recipient_by_owner(s0, t0, recipients);
        assert(s.last() == s[s.len() - 1]);
    }
}

} // verus!
