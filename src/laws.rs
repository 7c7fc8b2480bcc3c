use vstd::prelude::*;
use crate::accounts::{mint_error, token_amount, vault_error, AccountData};
use crate::config::Config;
use crate::deposit::{
    deposit_balances, deposit_check, deposit_result, lemma_deposit_check_stable,
};
use crate::error::ErrorCode;
use crate::issue::{lemma_min_of_bounds, min_of, per_share_unit, share_candidates};
use crate::redeem::{
    lemma_redeem_check_stable, payout_result, pro_rata, redeem_check, redeem_result,
};

verus! {

/// A deposit into a basket with shares outstanding in which no asset funds a
/// whole share is refused as not proportional.
pub proof fn lemma_no_whole_share_rejected(
    cfg: Config,
    amounts: Seq<u64>,
    accounts: Seq<AccountData>,
)
    requires
        cfg.wf(),
        cfg.total_shares > 0,
        amounts.len() == cfg.num_assets,
        accounts.len() == 3 * cfg.num_assets,
        deposit_check(cfg, accounts, cfg.num_assets as nat) is None,
        forall|i: int|
            0 <= i < cfg.num_assets ==> #[trigger] token_amount(accounts[3 * i + 1]) > 0,
        forall|i: int|
            0 <= i < cfg.num_assets ==> #[trigger] share_candidates(
                amounts,
                deposit_balances(accounts, cfg.num_assets as nat),
                cfg.total_shares,
            )[i] == 0,
    ensures
        deposit_result(cfg, amounts, accounts) == Err::<(int, Seq<int>), ErrorCode>(
            ErrorCode::InsufficientProportions,
        ),
{
    let n = cfg.num_assets as nat;
    let b = deposit_balances(accounts, n);
    let c = share_candidates(amounts, b, cfg.total_shares);
    assert forall|i: int| 0 <= i < c.len() implies c[i] <= u128::MAX by {
        assert(c[i] == 0);
    }
    lemma_min_of_bounds(c);
    assert(min_of(c) <= c[0]);
    let j = choose|j: int| 0 <= j < c.len() && c[j] == min_of(c);
    assert(c[j] == 0);
    assert forall|i: int| 0 <= i < b.len() implies b[i] != 0 by {
        assert(b[i] == token_amount(accounts[3 * i + 1]));
    }
}

/// An account of the wrong asset, or of the wrong kind, in the vault or mint
/// place of any basket position makes the whole deposit fail.
pub proof fn lemma_deposit_identity_mismatch_fails(
    cfg: Config,
    amounts: Seq<u64>,
    accounts: Seq<AccountData>,
    i: int,
)
    requires
        cfg.wf(),
        0 <= i < cfg.num_assets,
        vault_error(cfg, accounts[3 * i + 1], i) is Some || mint_error(
            cfg,
            accounts[3 * i + 2],
            i,
        ) is Some,
    ensures
        deposit_result(cfg, amounts, accounts) is Err,
{
    let n = cfg.num_assets as nat;
    if deposit_check(cfg, accounts, i as nat) is None {
        assert(deposit_check(cfg, accounts, (i + 1) as nat) is Some);
        lemma_deposit_check_stable(cfg, accounts, (i + 1) as nat, n);
    } else {
        lemma_deposit_check_stable(cfg, accounts, i as nat, n);
    }
}

/// An account of the wrong asset, or of the wrong kind, in the vault place of
/// any basket position makes the whole redemption fail.
pub proof fn lemma_redeem_vault_mismatch_fails(
    cfg: Config,
    shares_in: u64,
    accounts: Seq<AccountData>,
    i: int,
)
    requires
        cfg.wf(),
        0 <= i < cfg.num_assets,
        vault_error(cfg, accounts[2 * i + 1], i) is Some,
    ensures
        redeem_result(cfg, shares_in, accounts) is Err,
{
    let n = cfg.num_assets as nat;
    if redeem_check(cfg, shares_in, accounts, i as nat) is None {
        assert(redeem_check(cfg, shares_in, accounts, (i + 1) as nat) is Some);
        lemma_redeem_check_stable(cfg, shares_in, accounts, (i + 1) as nat, n);
    } else {
        lemma_redeem_check_stable(cfg, shares_in, accounts, i as nat, n);
    }
}

/// Where the fee product of a nonzero pro-rata amount does not fit in 64
/// bits, the payout fails with an overflow instead of wrapping.
pub proof fn lemma_fee_overflow_fails(balance: u64, shares_in: u64, total: u64, fee_bps: u16)
    requires
        total > 0,
        0 < pro_rata(balance as int, shares_in as int, total as int) <= u64::MAX,
        pro_rata(balance as int, shares_in as int, total as int) * fee_bps > u64::MAX,
    ensures
        payout_result(balance, shares_in, total, fee_bps) == Err::<int, ErrorCode>(
            ErrorCode::MathOverflow,
        ),
{
}

/// A proportional deposit of `y` shares never lowers the amount of an asset
/// that backs each share: `B / T <= (B + u * y) / (T + y)` with `u` the
/// per-share unit, rounded up.
pub proof fn lemma_deposit_keeps_backing(balance: u64, total: u64, y: u64)
    requires
        total > 0,
    ensures
        balance * (total + y) <= (balance + per_share_unit(balance as int, total as int) * y)
            * total,
{
    let u = per_share_unit(balance as int, total as int);
    assert(balance <= u * total) by (nonlinear_arith)
        requires
            u == (balance + total - 1) / (total as int),
            total > 0,
            balance >= 0,
    ;
    assert(balance * (total + y) <= (balance + u * y) * total) by (nonlinear_arith)
        requires
            balance <= u * total,
            y >= 0,
            total > 0,
    ;
}

/// A redemption of `shares_in` of `total` shares pays out of a vault at
/// most its pro-rata amount, never more than the vault holds, and never
/// lowers the backing of each remaining share.
pub proof fn lemma_redeem_keeps_backing(balance: u64, shares_in: u64, total: u64, fee_bps: u16)
    requires
        0 < shares_in <= total,
        payout_result(balance, shares_in, total, fee_bps) is Ok,
    ensures
        0 <= payout_result(balance, shares_in, total, fee_bps)->Ok_0 <= pro_rata(
            balance as int,
            shares_in as int,
            total as int,
        ) <= balance,
        (balance - payout_result(balance, shares_in, total, fee_bps)->Ok_0) * total >= balance
            * (total - shares_in),
{
    let p = pro_rata(balance as int, shares_in as int, total as int);
    assert(0 <= p <= balance && p * total <= balance * shares_in) by (nonlinear_arith)
        requires
            p == balance * shares_in / (total as int),
            0 < shares_in <= total,
            balance >= 0,
    ;
    if p > 0 {
        assert(0 <= p * fee_bps / 10_000) by (nonlinear_arith)
            requires
                p > 0,
                fee_bps >= 0,
        ;
    }
    let v = payout_result(balance, shares_in, total, fee_bps)->Ok_0;
    assert((balance - v) * total >= balance * (total - shares_in)) by (nonlinear_arith)
        requires
            0 <= v <= p,
            p * total <= balance * shares_in,
            total > 0,
    ;
}

/// Depositing for `y` shares and at once redeeming those same shares gives
/// back no more of an asset than was put in.
pub proof fn lemma_round_trip_no_gain(balance: u64, total: u64, y: u64, fee_bps: u16)
    requires
        total > 0,
        y > 0,
        balance + per_share_unit(balance as int, total as int) * y <= u64::MAX,
        total + y <= u64::MAX,
        payout_result(
            (balance + per_share_unit(balance as int, total as int) * y) as u64,
            y,
            (total + y) as u64,
            fee_bps,
        ) is Ok,
    ensures
        payout_result(
            (balance + per_share_unit(balance as int, total as int) * y) as u64,
            y,
            (total + y) as u64,
            fee_bps,
        )->Ok_0 <= per_share_unit(balance as int, total as int) * y,
{
    let u = per_share_unit(balance as int, total as int);
    let b2 = balance + u * y;
    let t2 = total + y;
    assert(balance <= u * total) by (nonlinear_arith)
        requires
            u == (balance + total - 1) / (total as int),
            total > 0,
            balance >= 0,
    ;
    assert(b2 * y / t2 <= u * y) by (nonlinear_arith)
        requires
            b2 == balance + u * y,
            t2 == total + y,
            balance <= u * total,
            y > 0,
            total > 0,
    ;
    lemma_redeem_keeps_backing(b2 as u64, y, t2 as u64, fee_bps);
}

} // verus!

verus! {

/// Redeeming every outstanding share pays out of a vault at most what it
/// holds, and exactly that where there is no exit fee.
pub proof fn lemma_full_redemption_pays_balance(balance: u64, total: u64, fee_bps: u16)
    requires
        total > 0,
        payout_result(balance, total, total, fee_bps) is Ok,
    ensures
        payout_result(balance, total, total, fee_bps)->Ok_0 <= balance,
        fee_bps == 0 ==> payout_result(balance, total, total, fee_bps)->Ok_0 == balance,
{
    assert(balance * total / (total as int) == balance) by (nonlinear_arith)
        requires
            total > 0,
    ;
    lemma_redeem_keeps_backing(balance, total, total, fee_bps);
}

} // verus!
