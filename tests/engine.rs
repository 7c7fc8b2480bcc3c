use meme_index::{
    bootstrap_shares, ceil_div_u64, deposit_and_mint, initialize_index, normalize_amount,
    proportional_shares, redeem_payout, redeem_to_basket, ten_pow_u128, u128_to_u64,
    AccountData, Config, ErrorCode, Key, MAX_ASSETS,
};

fn key(b: u8) -> Key {
    Key::new([b; 32])
}

fn basket(n: u8, fee: u16) -> Config {
    let assets = [key(11), key(12), key(13), key(14), key(15)];
    initialize_index(key(1), key(2), assets, n, fee, 254).unwrap()
}

fn deposit_accounts(cfg: &Config, balances: &[u64], decimals: &[u8]) -> Vec<AccountData> {
    let mut v = Vec::new();
    for i in 0..balances.len() {
        let asset = cfg.assets_mints[i];
        v.push(AccountData::Other);
        v.push(AccountData::Token { mint: asset, amount: balances[i] });
        v.push(AccountData::Mint { key: asset, decimals: decimals[i] });
    }
    v
}

fn redeem_accounts(cfg: &Config, balances: &[u64]) -> Vec<AccountData> {
    let mut v = Vec::new();
    for i in 0..balances.len() {
        v.push(AccountData::Other);
        v.push(AccountData::Token { mint: cfg.assets_mints[i], amount: balances[i] });
    }
    v
}

#[test]
fn initialize_sets_fields() {
    let cfg = basket(2, 50);
    assert_eq!(cfg.total_shares, 0);
    assert_eq!(cfg.num_assets, 2);
    assert_eq!(cfg.exit_fee_bps, 50);
    assert_eq!(cfg.bump, 254);
    assert!(cfg.authority.same_as(&key(1)));
    assert!(cfg.index_mint.same_as(&key(2)));
    assert!(cfg.assets_mints[4].same_as(&key(15)));
    assert_eq!(MAX_ASSETS, 5);
}

#[test]
fn initialize_rejects_bad_counts() {
    let assets = [key(11); MAX_ASSETS];
    assert_eq!(initialize_index(key(1), key(2), assets, 0, 0, 0).unwrap_err(), ErrorCode::InvalidNumAssets);
    assert_eq!(initialize_index(key(1), key(2), assets, 6, 0, 0).unwrap_err(), ErrorCode::InvalidNumAssets);
    assert!(initialize_index(key(1), key(2), assets, 5, 0, 0).is_ok());
    assert!(initialize_index(key(1), key(2), assets, 1, 0, 0).is_ok());
}

#[test]
fn key_comparison() {
    assert!(key(3).same_as(&key(3)));
    let mut b = [3u8; 32];
    b[31] = 4;
    assert!(!key(3).same_as(&Key::new(b)));
}

#[test]
fn ceil_div_values() {
    assert_eq!(ceil_div_u64(0, 7), 0);
    assert_eq!(ceil_div_u64(2_000, 1_000), 2);
    assert_eq!(ceil_div_u64(500, 1_000), 1);
    assert_eq!(ceil_div_u64(2_001, 1_000), 3);
    assert_eq!(ceil_div_u64(u64::MAX, 1), u64::MAX);
    assert_eq!(ceil_div_u64(u64::MAX, u64::MAX), 1);
}

#[test]
fn powers_and_narrowing() {
    assert_eq!(ten_pow_u128(0), 1);
    assert_eq!(ten_pow_u128(9), 1_000_000_000);
    assert_eq!(ten_pow_u128(38), 10u128.pow(38));
    assert_eq!(u128_to_u64(u64::MAX as u128), Ok(u64::MAX));
    assert_eq!(u128_to_u64(u64::MAX as u128 + 1), Err(ErrorCode::MathOverflow));
}

#[test]
fn normalization_values() {
    assert_eq!(normalize_amount(1_000_000, 6), 1_000_000_000);
    assert_eq!(normalize_amount(2_000_000_000, 9), 2_000_000_000);
    assert_eq!(normalize_amount(7, 0), 7_000_000_000);
    assert_eq!(normalize_amount(123_456, 12), 123);
    assert_eq!(normalize_amount(999, 12), 0);
    assert_eq!(normalize_amount(u64::MAX, 60), 0);
    assert_eq!(normalize_amount(u64::MAX, 255), 0);
    assert_eq!(normalize_amount(u64::MAX, 27), 18);
}

#[test]
fn bootstrap_normalization() {
    let plan = bootstrap_shares(&vec![1_000_000, 2_000_000_000], &vec![6, 9]).unwrap();
    assert_eq!(plan.shares, 1_000_000_000);
    assert_eq!(plan.transfers, vec![1_000_000, 2_000_000_000]);
}

#[test]
fn bootstrap_deposit_through_config() {
    let mut cfg = basket(2, 50);
    let accts = deposit_accounts(&cfg, &[0, 0], &[6, 9]);
    let plan = deposit_and_mint(&mut cfg, &vec![1_000_000, 2_000_000_000], &accts).unwrap();
    assert_eq!(plan.shares, 1_000_000_000);
    assert_eq!(plan.transfers, vec![1_000_000, 2_000_000_000]);
    assert_eq!(cfg.total_shares, 1_000_000_000);
}

#[test]
fn bootstrap_zero_deposit() {
    assert_eq!(bootstrap_shares(&vec![5, 0], &vec![6, 9]).unwrap_err(), ErrorCode::ZeroDeposit);
    // 999 units at twelve digits round down to nothing
    assert_eq!(bootstrap_shares(&vec![999, 10], &vec![12, 9]).unwrap_err(), ErrorCode::ZeroDeposit);
}

#[test]
fn bootstrap_overflow() {
    assert_eq!(bootstrap_shares(&vec![u64::MAX], &vec![0]).unwrap_err(), ErrorCode::MathOverflow);
    assert_eq!(bootstrap_shares(&vec![], &vec![]).unwrap_err(), ErrorCode::MathOverflow);
}

#[test]
fn proportionality_rejection() {
    let plan = proportional_shares(&vec![2_000, 100], &vec![2_000, 500], 1_000).unwrap();
    assert_eq!(plan.shares, 100);
    assert_eq!(plan.transfers, vec![200, 100]);
}

#[test]
fn proportional_deposit_through_config() {
    let mut cfg = basket(2, 50);
    cfg.total_shares = 1_000;
    let accts = deposit_accounts(&cfg, &[2_000, 500], &[6, 9]);
    let plan = deposit_and_mint(&mut cfg, &vec![2_000, 100], &accts).unwrap();
    assert_eq!(plan.shares, 100);
    assert_eq!(plan.transfers, vec![200, 100]);
    assert_eq!(cfg.total_shares, 1_100);
}

#[test]
fn zero_proportion_rejection() {
    let mut cfg = basket(2, 50);
    cfg.total_shares = 1_000;
    let accts = deposit_accounts(&cfg, &[2_000, 500], &[6, 9]);
    let r = deposit_and_mint(&mut cfg, &vec![1, 0], &accts);
    assert_eq!(r.err(), Some(ErrorCode::InsufficientProportions));
    assert_eq!(cfg.total_shares, 1_000);
}

#[test]
fn empty_vault_rejected() {
    assert_eq!(
        proportional_shares(&vec![10, 10], &vec![100, 0], 10).unwrap_err(),
        ErrorCode::InvalidPerShareUnits
    );
    assert_eq!(proportional_shares(&vec![], &vec![], 10).unwrap_err(), ErrorCode::Internal);
}

#[test]
fn deposit_shape_errors() {
    let mut cfg = basket(2, 0);
    let accts = deposit_accounts(&cfg, &[0, 0], &[6, 9]);
    assert_eq!(deposit_and_mint(&mut cfg, &vec![1], &accts).err(), Some(ErrorCode::InvalidArrayLen));
    let short = accts[0..5].to_vec();
    assert_eq!(deposit_and_mint(&mut cfg, &vec![1, 1], &short).err(), Some(ErrorCode::AccountsMismatch));
    let mut wrong_kind = accts.clone();
    wrong_kind[2] = AccountData::Other;
    assert_eq!(deposit_and_mint(&mut cfg, &vec![1, 1], &wrong_kind).err(), Some(ErrorCode::InvalidAccount));
    assert_eq!(cfg.total_shares, 0);
}

#[test]
fn mismatched_identity_fails_without_effect() {
    let mut cfg = basket(3, 0);
    cfg.total_shares = 1_000;
    let mut accts = deposit_accounts(&cfg, &[2_000, 500, 700], &[6, 9, 9]);
    accts[3 * 2 + 1] = AccountData::Token { mint: key(99), amount: 700 };
    assert_eq!(
        deposit_and_mint(&mut cfg, &vec![2_000, 100, 100], &accts).err(),
        Some(ErrorCode::MintOrderMismatch)
    );
    let mut accts = deposit_accounts(&cfg, &[2_000, 500, 700], &[6, 9, 9]);
    accts[2] = AccountData::Mint { key: key(12), decimals: 6 };
    assert_eq!(
        deposit_and_mint(&mut cfg, &vec![2_000, 100, 100], &accts).err(),
        Some(ErrorCode::MintOrderMismatch)
    );
    let mut raccts = redeem_accounts(&cfg, &[2_000, 500, 700]);
    raccts[1] = AccountData::Token { mint: key(12), amount: 2_000 };
    assert_eq!(redeem_to_basket(&mut cfg, 10, &raccts).err(), Some(ErrorCode::MintOrderMismatch));
    assert_eq!(cfg.total_shares, 1_000);
}

#[test]
fn redemption_fee_conservation() {
    assert_eq!(redeem_payout(10_000, 100, 1_000, 50), Ok(995));
    let mut cfg = basket(1, 50);
    cfg.total_shares = 1_000;
    let accts = redeem_accounts(&cfg, &[10_000]);
    let plan = redeem_to_basket(&mut cfg, 100, &accts).unwrap();
    assert_eq!(plan.burn, 100);
    assert_eq!(plan.payouts, vec![995]);
    assert_eq!(cfg.total_shares, 900);
}

#[test]
fn redemption_skips_dust() {
    assert_eq!(redeem_payout(5, 1, 1_000, 50), Ok(0));
    assert_eq!(redeem_payout(1_000, 1, 1_000, 10_000), Ok(0));
    assert_eq!(redeem_payout(1_000, 1_000, 1_000, 0), Ok(1_000));
}

#[test]
fn redemption_share_amount_errors() {
    let mut cfg = basket(1, 50);
    cfg.total_shares = 1_000;
    let accts = redeem_accounts(&cfg, &[10_000]);
    assert_eq!(redeem_to_basket(&mut cfg, 0, &accts).err(), Some(ErrorCode::InvalidShareAmount));
    assert_eq!(redeem_to_basket(&mut cfg, 1_001, &accts).err(), Some(ErrorCode::InvalidShareAmount));
    assert_eq!(redeem_to_basket(&mut cfg, 10, &accts[0..1].to_vec()).err(), Some(ErrorCode::AccountsMismatch));
    assert_eq!(cfg.total_shares, 1_000);
}

#[test]
fn overflow_safety() {
    assert_eq!(redeem_payout(u64::MAX, 1, 1, 50), Err(ErrorCode::MathOverflow));
    assert_eq!(redeem_payout(u64::MAX, 2, 1, 0), Err(ErrorCode::MathOverflow));
    // a fee above the whole payout cannot be subtracted
    assert_eq!(redeem_payout(1_000, 1_000, 1_000, 20_000), Err(ErrorCode::MathOverflow));
    let mut cfg = basket(1, 0);
    cfg.total_shares = u64::MAX - 5;
    let accts = deposit_accounts(&cfg, &[u64::MAX - 5], &[9]);
    assert_eq!(deposit_and_mint(&mut cfg, &vec![10], &accts).err(), Some(ErrorCode::MathOverflow));
    assert_eq!(cfg.total_shares, u64::MAX - 5);
}

#[test]
fn round_trip_non_inflation() {
    let mut cfg = basket(2, 0);
    let mut vaults = [0u64, 0u64];
    let mut deposited = [0u64, 0u64];
    let mut issued = 0u64;
    for amounts in [vec![1_000_000u64, 3_000], vec![777_777, 50_000], vec![10_001, 31]] {
        let accts = deposit_accounts(&cfg, &vaults, &[6, 3]);
        if let Ok(plan) = deposit_and_mint(&mut cfg, &amounts, &accts) {
            for i in 0..2 {
                vaults[i] += plan.transfers[i];
                deposited[i] += plan.transfers[i];
            }
            issued += plan.shares;
        }
    }
    assert_eq!(cfg.total_shares, issued);
    let accts = redeem_accounts(&cfg, &vaults);
    let plan = redeem_to_basket(&mut cfg, issued, &accts).unwrap();
    for i in 0..2 {
        assert!(plan.payouts[i] <= deposited[i]);
    }
    assert_eq!(cfg.total_shares, 0);
}
