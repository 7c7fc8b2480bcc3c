use vstd::prelude::*;

verus! {

/// Why an operation on an index configuration was refused.
#[derive(Clone, Copy, Debug, PartialEq, Eq, Structural)]
pub enum ErrorCode {
    /// The basket would hold no asset, or more than the maximum.
    InvalidNumAssets,
    /// A derived-authority seed could not be found.
    BumpNotFound,
    /// The amount list does not have one entry per basket asset.
    InvalidArrayLen,
    /// The account list does not have the expected number of entries.
    AccountsMismatch,
    /// An account does not belong to the basket asset at its position.
    MintOrderMismatch,
    /// A checked addition, multiplication, subtraction or narrowing failed.
    MathOverflow,
    /// The first deposit would issue no share.
    ZeroDeposit,
    /// Some vault is empty while shares are outstanding.
    InvalidPerShareUnits,
    /// The amounts do not fund a single whole share at the current ratio.
    InsufficientProportions,
    /// A condition that validation rules out was met.
    Internal,
    /// The number of shares to redeem is zero or above the outstanding total.
    InvalidShareAmount,
    /// An account at some position is not of the kind expected there.
    InvalidAccount,
}

} // verus!
