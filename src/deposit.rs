use vstd::prelude::*;
use crate::accounts::{
    mint_decimals, mint_error, read_mint, read_vault, token_amount, vault_error, AccountData,
};
use crate::config::Config;
use crate::error::ErrorCode;
use crate::issue::{
    bootstrap_result, bootstrap_shares, plan_view, proportional_result, proportional_shares,
    DepositPlan,
};

verus! {

/// The first failure among the account triples of the first `k` assets of a
/// deposit; each triple is (depositor's account, vault, mint).
pub open spec fn deposit_check(cfg: Config, accounts: Seq<AccountData>, k: nat) -> Option<ErrorCode>
    decreases k,
{
    if k == 0 {
        None
    } else {
        let i = k - 1;
        match deposit_check(cfg, accounts, (k - 1) as nat) {
            Some(e) => Some(e),
            None => match vault_error(cfg, accounts[3 * i + 1], i) {
                Some(e) => Some(e),
                None => mint_error(cfg, accounts[3 * i + 2], i),
            },
        }
    }
}

/// Once a failure is found, later triples do not change it.
pub proof fn lemma_deposit_check_stable(cfg: Config, accounts: Seq<AccountData>, k: nat, n: nat)
    requires
        k <= n,
        deposit_check(cfg, accounts, k) is Some,
    ensures
        deposit_check(cfg, accounts, n) == deposit_check(cfg, accounts, k),
    decreases n - k,
{
    if k < n {
        lemma_deposit_check_stable(cfg, accounts, k, (n - 1) as nat);
    }
}

/// Vault balances, in basket order.
pub open spec fn deposit_balances(accounts: Seq<AccountData>, n: nat) -> Seq<u64> {
    Seq::new(n, |i: int| token_amount(accounts[3 * i + 1]))
}

/// Asset decimals, in basket order.
pub open spec fn deposit_decimals(accounts: Seq<AccountData>, n: nat) -> Seq<u8> {
    Seq::new(n, |i: int| mint_decimals(accounts[3 * i + 2]))
}

/// Outcome of a deposit of `amounts` against `cfg`: the shares issued and
/// the amount pulled per asset, or the error.
pub open spec fn deposit_result(cfg: Config, amounts: Seq<u64>, accounts: Seq<AccountData>) -> Result<
    (int, Seq<int>),
    ErrorCode,
> {
    let n = cfg.num_assets as nat;
    if amounts.len() != n {
        Err(ErrorCode::InvalidArrayLen)
    } else if accounts.len() != 3 * n {
        Err(ErrorCode::AccountsMismatch)
    } else if deposit_check(cfg, accounts, n) is Some {
        Err(deposit_check(cfg, accounts, n)->0)
    } else {
        let issued = if cfg.total_shares == 0 {
            bootstrap_result(amounts, deposit_decimals(accounts, n))
        } else {
            proportional_result(amounts, deposit_balances(accounts, n), cfg.total_shares)
        };
        match issued {
            Err(e) => Err(e),
            Ok((y, t)) => if cfg.total_shares + y > u64::MAX {
                Err(ErrorCode::MathOverflow)
            } else {
                Ok((y, t))
            },
        }
    }
}

/// Validates a deposit of `amounts` (one per basket asset, in order) against
/// the caller's accounts, decides how many shares it issues and what each
/// asset supplies, and counts the new shares as outstanding. On an error the
/// configuration is unchanged and nothing is to be moved.
pub fn deposit_and_mint(cfg: &mut Config, amounts: &Vec<u64>, accounts: &Vec<AccountData>) -> (r:
    Result<DepositPlan, ErrorCode>)
    requires
        old(cfg).wf(),
    ensures
        plan_view(r) == deposit_result(*old(cfg), amounts@, accounts@),
        r matches Ok(p) ==> *final(cfg) == (Config {
            total_shares: (old(cfg).total_shares + p.shares) as u64,
            ..*old(cfg)
        }),
        r is Err ==> *final(cfg) == *old(cfg),
{
    let n = cfg.num_assets as usize;
    if amounts.len() != n {
        return Err(ErrorCode::InvalidArrayLen);
    }
    if accounts.len() != n * 3 {
        return Err(ErrorCode::AccountsMismatch);
    }
    let mut vault_balances: Vec<u64> = Vec::new();
    let mut decimals: Vec<u8> = Vec::new();
    let mut i: usize = 0;
    while i < n
        invariant
            *cfg == *old(cfg),
            n == cfg.num_assets <= 5,
            amounts.len() == n,
            accounts.len() == 3 * n,
            i <= n,
            deposit_check(*cfg, accounts@, i as nat) is None,
            vault_balances@ == deposit_balances(accounts@, i as nat),
            decimals@ == deposit_decimals(accounts@, i as nat),
        decreases n - i,
    {
        let balance = match read_vault(cfg, &accounts[i * 3 + 1], i) {
            Ok(v) => v,
            Err(e) => {
                proof {
                    lemma_deposit_check_stable(*cfg, accounts@, (i + 1) as nat, n as nat);
                }
                return Err(e);
            },
        };
        let dec = match read_mint(cfg, &accounts[i * 3 + 2], i) {
            Ok(v) => v,
            Err(e) => {
                proof {
                    lemma_deposit_check_stable(*cfg, accounts@, (i + 1) as nat, n as nat);
                }
                return Err(e);
            },
        };
        vault_balances.push(balance);
        decimals.push(dec);
        i = i + 1;
        assert(vault_balances@ =~= deposit_balances(accounts@, i as nat));
        assert(decimals@ =~= deposit_decimals(accounts@, i as nat));
    }
    let plan = if cfg.total_shares == 0 {
        bootstrap_shares(amounts, &decimals)
    } else {
        proportional_shares(amounts, &vault_balances, cfg.total_shares)
    };
    let plan = match plan {
        Ok(p) => p,
        Err(e) => {
            return Err(e);
        },
    };
    let total = match cfg.total_shares.checked_add(plan.shares) {
        Some(t) => t,
        None => {
            return Err(ErrorCode::MathOverflow);
        },
    };
    cfg.total_shares = total;
    Ok(plan)
}

} // verus!
