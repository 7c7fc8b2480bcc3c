use vstd::prelude::*;
use crate::config::Config;
use crate::error::ErrorCode;
use crate::key::Key;

verus! {

/// What the host ledger shows of one caller-supplied account.
#[derive(Clone, Copy, Debug)]
pub enum AccountData {
    /// A token account: the asset it holds and its balance.
    Token { mint: Key, amount: u64 },
    /// An asset's mint: its identifier and its number of fractional digits.
    Mint { key: Key, decimals: u8 },
    /// Any other account.
    Other,
}

/// Why `a` cannot serve as the vault of basket asset `i`, if it cannot.
pub open spec fn vault_error(cfg: Config, a: AccountData, i: int) -> Option<ErrorCode> {
    match a {
        AccountData::Token { mint, .. } => if mint@ == cfg.asset(i) {
            None
        } else {
            Some(ErrorCode::MintOrderMismatch)
        },
        _ => Some(ErrorCode::InvalidAccount),
    }
}

/// Why `a` cannot serve as the mint of basket asset `i`, if it cannot.
pub open spec fn mint_error(cfg: Config, a: AccountData, i: int) -> Option<ErrorCode> {
    match a {
        AccountData::Mint { key, .. } => if key@ == cfg.asset(i) {
            None
        } else {
            Some(ErrorCode::MintOrderMismatch)
        },
        _ => Some(ErrorCode::InvalidAccount),
    }
}

/// Balance of a token account.
pub open spec fn token_amount(a: AccountData) -> u64 {
    match a {
        AccountData::Token { amount, .. } => amount,
        _ => 0,
    }
}

/// Fractional digits of a mint.
pub open spec fn mint_decimals(a: AccountData) -> u8 {
    match a {
        AccountData::Mint { decimals, .. } => decimals,
        _ => 0,
    }
}

/// Checks that `a` is a token account of basket asset `i`, and returns its balance.
pub fn read_vault(cfg: &Config, a: &AccountData, i: usize) -> (r: Result<u64, ErrorCode>)
    requires
        i < cfg.num_assets <= 5,
    ensures
        vault_error(*cfg, *a, i as int) matches Some(e) ==> r == Err::<u64, ErrorCode>(e),
        vault_error(*cfg, *a, i as int) is None ==> r == Ok::<u64, ErrorCode>(token_amount(*a)),
{
    match a {
        AccountData::Token { mint, amount } => {
            if mint.same_as(&cfg.assets_mints[i]) {
                Ok(*amount)
            } else {
                Err(ErrorCode::MintOrderMismatch)
            }
        },
        _ => Err(ErrorCode::InvalidAccount),
    }
}

/// Checks that `a` is the mint of basket asset `i`, and returns its decimals.
pub fn read_mint(cfg: &Config, a: &AccountData, i: usize) -> (r: Result<u8, ErrorCode>)
    requires
        i < cfg.num_assets <= 5,
    ensures
        mint_error(*cfg, *a, i as int) matches Some(e) ==> r == Err::<u8, ErrorCode>(e),
        mint_error(*cfg, *a, i as int) is None ==> r == Ok::<u8, ErrorCode>(mint_decimals(*a)),
{
    match a {
        AccountData::Mint { key, decimals } => {
            if key.same_as(&cfg.assets_mints[i]) {
                Ok(*decimals)
            } else {
                Err(ErrorCode::MintOrderMismatch)
            }
        },
        _ => Err(ErrorCode::InvalidAccount),
    }
}

} // verus!
