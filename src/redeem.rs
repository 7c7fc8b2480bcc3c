use vstd::prelude::*;
use crate::accounts::{read_vault, token_amount, vault_error, AccountData};
use crate::config::Config;
use crate::error::ErrorCode;
use crate::math::u128_to_u64;

verus! {

/// Basis points in a whole.
pub const BPS_DENOMINATOR: u64 = 10_000;

/// Share of a vault holding `balance` due to `shares_in` of `total` shares,
/// rounded down.
pub open spec fn pro_rata(balance: int, shares_in: int, total: int) -> int {
    balance * shares_in / total
}

/// Exit fee on `amount` at `fee_bps` basis points, rounded down.
pub open spec fn exit_fee(amount: int, fee_bps: int) -> int {
    amount * fee_bps / 10_000
}

/// What one vault pays out when `shares_in` of `total` shares are redeemed at
/// a fee of `fee_bps`, or the arithmetic failure.
pub open spec fn payout_result(balance: u64, shares_in: u64, total: u64, fee_bps: u16) -> Result<
    int,
    ErrorCode,
> {
    let p = pro_rata(balance as int, shares_in as int, total as int);
    if p > u64::MAX {
        Err(ErrorCode::MathOverflow)
    } else if p == 0 {
        Ok(0)
    } else if p * fee_bps > u64::MAX {
        Err(ErrorCode::MathOverflow)
    } else if exit_fee(p, fee_bps as int) > p {
        Err(ErrorCode::MathOverflow)
    } else {
        Ok(p - exit_fee(p, fee_bps as int))
    }
}

/// Pays out of a vault holding `balance` for `shares_in` of `total_shares`
/// shares: the pro-rata amount less the exit fee, which stays in the vault.
/// Nothing is paid, and no fee taken, where the pro-rata amount is zero.
pub fn redeem_payout(balance: u64, shares_in: u64, total_shares: u64, exit_fee_bps: u16) -> (r:
    Result<u64, ErrorCode>)
    requires
        total_shares > 0,
    ensures
        r matches Ok(v) ==> payout_result(balance, shares_in, total_shares, exit_fee_bps) == Ok::<
            int,
            ErrorCode,
        >(v as int),
        r matches Err(e) ==> payout_result(balance, shares_in, total_shares, exit_fee_bps) == Err::<
            int,
            ErrorCode,
        >(e),
{
    assert(balance * shares_in <= u64::MAX * u64::MAX) by (nonlinear_arith)
        requires
            balance <= u64::MAX,
            shares_in <= u64::MAX,
    ;
    let numerator: u128 = match (balance as u128).checked_mul(shares_in as u128) {
        Some(v) => v,
        None => {
            return Err(ErrorCode::MathOverflow);
        },
    };
    let pro = match u128_to_u64(numerator / (total_shares as u128)) {
        Ok(v) => v,
        Err(e) => {
            return Err(e);
        },
    };
    if pro == 0 {
        return Ok(0);
    }
    let fee = match pro.checked_mul(exit_fee_bps as u64) {
        Some(v) => v / BPS_DENOMINATOR,
        None => {
            return Err(ErrorCode::MathOverflow);
        },
    };
    match pro.checked_sub(fee) {
        Some(net) => Ok(net),
        None => Err(ErrorCode::MathOverflow),
    }
}

} // verus!

verus! {

/// Shares to burn from the redeemer and, per asset in basket order, the
/// amount to pay out of its vault (nothing is paid where it is zero).
#[derive(Debug)]
pub struct RedeemPlan {
    pub burn: u64,
    pub payouts: Vec<u64>,
}

/// Net payout for one vault; zero where the arithmetic fails.
pub open spec fn payout_amount(balance: u64, shares_in: u64, total: u64, fee_bps: u16) -> int {
    match payout_result(balance, shares_in, total, fee_bps) {
        Ok(v) => v,
        Err(_) => 0,
    }
}

/// The failure at basket position `i` of a redemption, if any: its vault
/// (the second account of each pair) is checked, then its payout computed.
pub open spec fn redeem_step_error(cfg: Config, shares_in: u64, accounts: Seq<AccountData>, i: int) -> Option<
    ErrorCode,
> {
    match vault_error(cfg, accounts[2 * i + 1], i) {
        Some(e) => Some(e),
        None => match payout_result(
            token_amount(accounts[2 * i + 1]),
            shares_in,
            cfg.total_shares,
            cfg.exit_fee_bps,
        ) {
            Err(e) => Some(e),
            Ok(_) => None,
        },
    }
}

/// The first failure among the first `k` positions of a redemption.
pub open spec fn redeem_check(cfg: Config, shares_in: u64, accounts: Seq<AccountData>, k: nat) -> Option<
    ErrorCode,
>
    decreases k,
{
    if k == 0 {
        None
    } else {
        match redeem_check(cfg, shares_in, accounts, (k - 1) as nat) {
            Some(e) => Some(e),
            None => redeem_step_error(cfg, shares_in, accounts, k - 1),
        }
    }
}

/// Once a failure is found, later positions do not change it.
pub proof fn lemma_redeem_check_stable(
    cfg: Config,
    shares_in: u64,
    accounts: Seq<AccountData>,
    k: nat,
    n: nat,
)
    requires
        k <= n,
        redeem_check(cfg, shares_in, accounts, k) is Some,
    ensures
        redeem_check(cfg, shares_in, accounts, n) == redeem_check(cfg, shares_in, accounts, k),
    decreases n - k,
{
    if k < n {
        lemma_redeem_check_stable(cfg, shares_in, accounts, k, (n - 1) as nat);
    }
}

/// Net payouts of a redemption, in basket order.
pub open spec fn redeem_payouts(cfg: Config, shares_in: u64, accounts: Seq<AccountData>, n: nat) -> Seq<
    int,
> {
    Seq::new(
        n,
        |i: int|
            payout_amount(
                token_amount(accounts[2 * i + 1]),
                shares_in,
                cfg.total_shares,
                cfg.exit_fee_bps,
            ),
    )
}

/// Outcome of redeeming `shares_in` shares against `cfg`: the payout per
/// asset, or the error.
pub open spec fn redeem_result(cfg: Config, shares_in: u64, accounts: Seq<AccountData>) -> Result<
    Seq<int>,
    ErrorCode,
> {
    let n = cfg.num_assets as nat;
    if !(0 < shares_in <= cfg.total_shares) {
        Err(ErrorCode::InvalidShareAmount)
    } else if accounts.len() != 2 * n {
        Err(ErrorCode::AccountsMismatch)
    } else if redeem_check(cfg, shares_in, accounts, n) is Some {
        Err(redeem_check(cfg, shares_in, accounts, n)->0)
    } else {
        Ok(redeem_payouts(cfg, shares_in, accounts, n))
    }
}

/// A redemption plan as its sequence of payouts.
pub open spec fn redeem_view(r: Result<RedeemPlan, ErrorCode>) -> Result<Seq<int>, ErrorCode> {
    match r {
        Ok(p) => Ok(p.payouts@.map_values(|v: u64| v as int)),
        Err(e) => Err(e),
    }
}

/// Validates a redemption of `shares_in` shares against the caller's
/// (destination, vault) account pairs, decides what each vault pays out, and
/// takes the shares off the outstanding total. Every payout is computed
/// against the total before the redemption. On an error the configuration is
/// unchanged and nothing is to be burned or moved.
pub fn redeem_to_basket(cfg: &mut Config, shares_in: u64, accounts: &Vec<AccountData>) -> (r:
    Result<RedeemPlan, ErrorCode>)
    requires
        old(cfg).wf(),
    ensures
        redeem_view(r) == redeem_result(*old(cfg), shares_in, accounts@),
        r matches Ok(p) ==> p.burn == shares_in && *final(cfg) == (Config {
            total_shares: (old(cfg).total_shares - shares_in) as u64,
            ..*old(cfg)
        }),
        r is Err ==> *final(cfg) == *old(cfg),
{
    if !(shares_in > 0 && shares_in <= cfg.total_shares) {
        return Err(ErrorCode::InvalidShareAmount);
    }
    let n = cfg.num_assets as usize;
    if accounts.len() != n * 2 {
        return Err(ErrorCode::AccountsMismatch);
    }
    let mut payouts: Vec<u64> = Vec::new();
    let mut i: usize = 0;
    while i < n
        invariant
            *cfg == *old(cfg),
            0 < shares_in <= cfg.total_shares,
            n == cfg.num_assets <= 5,
            accounts.len() == 2 * n,
            i <= n,
            redeem_check(*cfg, shares_in, accounts@, i as nat) is None,
            payouts.len() == i,
            forall|j: int|
                0 <= j < i ==> payouts[j] == payout_amount(
                    token_amount(accounts@[2 * j + 1]),
                    shares_in,
                    cfg.total_shares,
                    cfg.exit_fee_bps,
                ),
        decreases n - i,
    {
        let balance = match read_vault(cfg, &accounts[i * 2 + 1], i) {
            Ok(v) => v,
            Err(e) => {
                proof {
                    assert(redeem_check(*cfg, shares_in, accounts@, (i + 1) as nat) == Some(e));
                    lemma_redeem_check_stable(*cfg, shares_in, accounts@, (i + 1) as nat, n as nat);
                }
                return Err(e);
            },
        };
        let net = match redeem_payout(balance, shares_in, cfg.total_shares, cfg.exit_fee_bps) {
            Ok(v) => v,
            Err(e) => {
                proof {
                    assert(redeem_check(*cfg, shares_in, accounts@, (i + 1) as nat) == Some(e));
                    lemma_redeem_check_stable(*cfg, shares_in, accounts@, (i + 1) as nat, n as nat);
                }
                return Err(e);
            },
        };
        payouts.push(net);
        i = i + 1;
    }
    assert(payouts@.map_values(|v: u64| v as int) =~= redeem_payouts(
        *cfg,
        shares_in,
        accounts@,
        n as nat,
    ));
    cfg.total_shares = cfg.total_shares - shares_in;
    Ok(RedeemPlan { burn: shares_in, payouts })
}

} // verus!
