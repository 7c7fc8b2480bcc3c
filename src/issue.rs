use vstd::prelude::*;
use crate::error::ErrorCode;
use crate::math::{ceil_div, ceil_div_u64, normalize_amount, normalized, u128_to_u64};

verus! {

/// Smallest element of `s`; the largest 128-bit value for an empty sequence.
pub open spec fn min_of(s: Seq<int>) -> int
    decreases s.len(),
{
    if s.len() == 0 {
        u128::MAX as int
    } else {
        let m = min_of(s.drop_last());
        if s.last() < m {
            s.last()
        } else {
            m
        }
    }
}

/// Shares to issue and, per asset in basket order, the amount to pull from
/// the depositor (nothing is pulled where the amount is zero).
#[derive(Debug)]
pub struct DepositPlan {
    pub shares: u64,
    pub transfers: Vec<u64>,
}

/// A deposit plan as a number of shares and a sequence of amounts.
pub open spec fn plan_view(r: Result<DepositPlan, ErrorCode>) -> Result<(int, Seq<int>), ErrorCode> {
    match r {
        Ok(p) => Ok((p.shares as int, p.transfers@.map_values(|v: u64| v as int))),
        Err(e) => Err(e),
    }
}

/// Each requested amount brought to nine fractional digits.
pub open spec fn normalized_amounts(amounts: Seq<u64>, decimals: Seq<u8>) -> Seq<int> {
    Seq::new(amounts.len(), |i: int| normalized(amounts[i], decimals[i]))
}

/// Outcome of a first deposit into a basket with no share outstanding: the
/// smallest normalized amount is the number of shares, and every requested
/// amount is pulled in full.
pub open spec fn bootstrap_result(amounts: Seq<u64>, decimals: Seq<u8>) -> Result<
    (int, Seq<int>),
    ErrorCode,
> {
    let m = min_of(normalized_amounts(amounts, decimals));
    if m == 0 {
        Err(ErrorCode::ZeroDeposit)
    } else if m > u64::MAX {
        Err(ErrorCode::MathOverflow)
    } else {
        Ok((m, amounts.map_values(|v: u64| v as int)))
    }
}

/// Amount of one asset that backs one share, rounded up.
pub open spec fn per_share_unit(balance: int, total_shares: int) -> int {
    ceil_div(balance, total_shares)
}

/// Per asset, how many whole shares the requested amount funds.
pub open spec fn share_candidates(amounts: Seq<u64>, balances: Seq<u64>, total_shares: u64) -> Seq<
    int,
> {
    Seq::new(
        amounts.len(),
        |i: int| amounts[i] as int / per_share_unit(balances[i] as int, total_shares as int),
    )
}

/// Outcome of a deposit into a basket with shares outstanding: the most
/// constraining asset fixes the number of shares, and each asset pulls exactly
/// its per-share unit times that number.
pub open spec fn proportional_result(amounts: Seq<u64>, balances: Seq<u64>, total_shares: u64) -> Result<
    (int, Seq<int>),
    ErrorCode,
> {
    let y = min_of(share_candidates(amounts, balances, total_shares));
    if exists|i: int| 0 <= i < balances.len() && balances[i] == 0 {
        Err(ErrorCode::InvalidPerShareUnits)
    } else if amounts.len() == 0 {
        Err(ErrorCode::Internal)
    } else if y == 0 {
        Err(ErrorCode::InsufficientProportions)
    } else {
        Ok(
            (
                y,
                Seq::new(
                    amounts.len(),
                    |i: int| per_share_unit(balances[i] as int, total_shares as int) * y,
                ),
            ),
        )
    }
}

proof fn lemma_min_of_step(s: Seq<int>, i: int)
    requires
        0 <= i < s.len(),
    ensures
        min_of(s.take(i + 1)) == if s[i] < min_of(s.take(i)) {
            s[i]
        } else {
            min_of(s.take(i))
        },
{
    assert(s.take(i + 1).drop_last() =~= s.take(i));
}

/// Every element is at least the minimum, and a non-empty sequence holds it.
pub proof fn lemma_min_of_bounds(s: Seq<int>)
    requires
        forall|i: int| 0 <= i < s.len() ==> s[i] <= u128::MAX,
    ensures
        forall|i: int| 0 <= i < s.len() ==> min_of(s) <= s[i],
        s.len() > 0 ==> exists|i: int| 0 <= i < s.len() && s[i] == min_of(s),
    decreases s.len(),
{
    if s.len() > 0 {
        let t = s.drop_last();
        assert forall|i: int| 0 <= i < t.len() implies t[i] <= u128::MAX by {
            assert(t[i] == s[i]);
        }
        lemma_min_of_bounds(t);
        if s.len() > 1 {
            let j = choose|j: int| 0 <= j < t.len() && t[j] == min_of(t);
            assert(s[j] == t[j]);
        } else {
            assert(t.len() == 0);
            assert(s[0] == min_of(s));
        }
        assert forall|i: int| 0 <= i < s.len() implies min_of(s) <= s[i] by {
            if i < s.len() - 1 {
                assert(s[i] == s.drop_last()[i]);
            }
        }
    }
}

/// Shares for the first deposit into a basket: each amount is brought to nine
/// fractional digits (`decimals[i]` gives asset `i`'s), and the smallest wins.
pub fn bootstrap_shares(amounts: &Vec<u64>, decimals: &Vec<u8>) -> (r: Result<DepositPlan, ErrorCode>)
    requires
        amounts.len() == decimals.len(),
    ensures
        plan_view(r) == bootstrap_result(amounts@, decimals@),
{
    let ghost s = normalized_amounts(amounts@, decimals@);
    let n = amounts.len();
    let mut min_norm: u128 = u128::MAX;
    let mut i: usize = 0;
    while i < n
        invariant
            n == amounts.len() == decimals.len() == s.len(),
            s == normalized_amounts(amounts@, decimals@),
            i <= n,
            min_norm == min_of(s.take(i as int)),
        decreases n - i,
    {
        let scaled = normalize_amount(amounts[i], decimals[i]);
        proof {
            lemma_min_of_step(s, i as int);
        }
        if scaled < min_norm {
            min_norm = scaled;
        }
        i = i + 1;
    }
    assert(s.take(n as int) =~= s);
    if min_norm == 0 {
        return Err(ErrorCode::ZeroDeposit);
    }
    let shares = match u128_to_u64(min_norm) {
        Ok(v) => v,
        Err(e) => {
            return Err(e);
        },
    };
    let transfers = amounts.clone();
    assert(transfers@.map_values(|v: u64| v as int) =~= amounts@.map_values(|v: u64| v as int));
    Ok(DepositPlan { shares, transfers })
}

/// Shares for a deposit into a basket with `total_shares` outstanding, whose
/// vaults hold `balances`: the number of whole shares the scarcest asset
/// funds, and what each asset must supply for them.
pub fn proportional_shares(amounts: &Vec<u64>, balances: &Vec<u64>, total_shares: u64) -> (r: Result<
    DepositPlan,
    ErrorCode,
>)
    requires
        amounts.len() == balances.len(),
        total_shares > 0,
    ensures
        plan_view(r) == proportional_result(amounts@, balances@, total_shares),
{
    let ghost c = share_candidates(amounts@, balances@, total_shares);
    let n = amounts.len();
    let mut per_share_units: Vec<u64> = Vec::new();
    let mut y: u64 = u64::MAX;
    let mut i: usize = 0;
    while i < n
        invariant
            n == amounts.len() == balances.len() == c.len(),
            c == share_candidates(amounts@, balances@, total_shares),
            total_shares > 0,
            i <= n,
            per_share_units.len() == i,
            forall|j: int|
                0 <= j < i ==> per_share_units[j] == per_share_unit(
                    balances[j] as int,
                    total_shares as int,
                ) && per_share_units[j] > 0,
            forall|j: int| 0 <= j < i ==> balances[j] > 0,
            i == 0 ==> y == u64::MAX,
            i > 0 ==> y == min_of(c.take(i as int)),
        decreases n - i,
    {
        let per_share = ceil_div_u64(balances[i], total_shares);
        if per_share == 0 {
            assert(balances[i as int] == 0) by (nonlinear_arith)
                requires
                    per_share == (balances[i as int] + total_shares - 1) / (total_shares as int),
                    per_share == 0,
                    total_shares > 0,
            ;
            return Err(ErrorCode::InvalidPerShareUnits);
        }
        if balances[i] == 0 {
            assert((total_shares - 1) / (total_shares as int) == 0) by (nonlinear_arith)
                requires
                    total_shares > 0,
            ;
        }
        per_share_units.push(per_share);
        let y_i = amounts[i] / per_share;
        proof {
            lemma_min_of_step(c, i as int);
            if i == 0 {
                assert(c.take(0) =~= Seq::<int>::empty());
            }
        }
        if i == 0 || y_i < y {
            y = y_i;
        }
        i = i + 1;
    }
    assert(c.take(n as int) =~= c);
    if n == 0 {
        return Err(ErrorCode::Internal);
    }
    if y == 0 {
        return Err(ErrorCode::InsufficientProportions);
    }
    proof {
        assert forall|j: int| 0 <= j < c.len() implies c[j] <= u128::MAX by {
            assert(c[j] <= amounts[j]) by (nonlinear_arith)
                requires
                    c[j] == amounts[j] as int / per_share_units[j] as int,
                    per_share_units[j] > 0,
            ;
        }
        lemma_min_of_bounds(c);
    }
    let mut transfers: Vec<u64> = Vec::new();
    let mut k: usize = 0;
    while k < n
        invariant
            n == amounts.len() == balances.len() == c.len() == per_share_units.len(),
            c == share_candidates(amounts@, balances@, total_shares),
            forall|j: int| 0 <= j < n ==> y <= c[j],
            forall|j: int|
                0 <= j < n ==> per_share_units[j] == per_share_unit(
                    balances[j] as int,
                    total_shares as int,
                ) && per_share_units[j] > 0,
            k <= n,
            transfers.len() == k,
            forall|j: int| 0 <= j < k ==> transfers[j] == per_share_units[j] * y,
        decreases n - k,
    {
        let p = per_share_units[k];
        assert(y <= c[k as int]);
        assert(c[k as int] == amounts[k as int] as int / p as int);
        assert(p * y <= amounts[k as int]) by (nonlinear_arith)
            requires
                y <= amounts[k as int] as int / p as int,
                p > 0,
        ;
        let required = match p.checked_mul(y) {
            Some(v) => v,
            None => {
                return Err(ErrorCode::MathOverflow);
            },
        };
        transfers.push(required);
        k = k + 1;
    }
    let ghost want = Seq::new(
        n as nat,
        |j: int| per_share_unit(balances[j] as int, total_shares as int) * y,
    );
    assert(transfers@.map_values(|v: u64| v as int) =~= want);
    assert(!(exists|j: int| 0 <= j < balances.len() && balances[j] == 0));
    Ok(DepositPlan { shares: y, transfers })
}

} // verus!
