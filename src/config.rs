use vstd::prelude::*;
use crate::error::ErrorCode;
use crate::key::Key;

verus! {

/// Largest number of assets in one basket.
pub const MAX_ASSETS: usize = 5;

/// The persistent record of one basket: its assets, in order, its exit fee
/// and the number of shares outstanding.
#[derive(Clone, Copy, Debug)]
pub struct Config {
    pub authority: Key,
    pub index_mint: Key,
    /// Fee kept back on every redemption, in basis points.
    pub exit_fee_bps: u16,
    /// How many leading entries of `assets_mints` make up the basket.
    pub num_assets: u8,
    /// Seed byte of the configuration's derived address.
    pub bump: u8,
    pub total_shares: u64,
    pub assets_mints: [Key; MAX_ASSETS],
}

impl Config {
    /// The basket holds between one and `MAX_ASSETS` assets.
    pub open spec fn wf(&self) -> bool {
        1 <= self.num_assets <= MAX_ASSETS
    }

    /// Identifier of the basket asset at position `i`.
    pub open spec fn asset(&self, i: int) -> Seq<u8> {
        self.assets_mints@[i]@
    }
}

/// Creates the configuration of a new basket, with no share outstanding.
/// The first `num_assets` entries of `assets` are the basket, in order.
pub fn initialize_index(
    authority: Key,
    index_mint: Key,
    assets: [Key; MAX_ASSETS],
    num_assets: u8,
    exit_fee_bps: u16,
    bump: u8,
) -> (r: Result<Config, ErrorCode>)
    ensures
        !(1 <= num_assets <= MAX_ASSETS) ==> r == Err::<Config, ErrorCode>(
            ErrorCode::InvalidNumAssets,
        ),
        (1 <= num_assets <= MAX_ASSETS) ==> r == Ok::<Config, ErrorCode>(
            (Config {
                authority,
                index_mint,
                exit_fee_bps,
                num_assets,
                bump,
                total_shares: 0,
                assets_mints: assets,
            }),
        ),
        r matches Ok(c) ==> c.wf(),
{
    if !(num_assets as usize <= MAX_ASSETS && num_assets > 0) {
        return Err(ErrorCode::InvalidNumAssets);
    }
    Ok(
        Config {
            authority,
            index_mint,
            exit_fee_bps,
            num_assets,
            bump,
            total_shares: 0,
            assets_mints: assets,
        },
    )
}

} // verus!
