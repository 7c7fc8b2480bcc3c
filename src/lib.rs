//! Accounting engine of a basket-backed index fund: shares are issued against
//! deposits of a fixed, ordered set of assets and redeemed for a pro-rata slice
//! of the basket, less an exit fee. All arithmetic is checked and proved.
pub mod accounts;
pub mod config;
pub mod deposit;
pub mod error;
pub mod issue;
pub mod key;
pub mod laws;
pub mod math;
pub mod redeem;

pub use accounts::AccountData;
pub use config::{initialize_index, Config, MAX_ASSETS};
pub use deposit::deposit_and_mint;
pub use error::ErrorCode;
pub use issue::{bootstrap_shares, proportional_shares, DepositPlan};
pub use key::Key;
pub use math::{ceil_div_u64, normalize_amount, ten_pow_u128, u128_to_u64};
pub use redeem::{redeem_payout, redeem_to_basket, RedeemPlan, BPS_DENOMINATOR};
