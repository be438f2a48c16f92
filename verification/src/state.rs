//! The accounts an exchange reads and moves balances between.

use vstd::prelude::*;
use crate::address::Address;

verus! {

/// The pool's descriptor. An exchange reads it and never changes it.
///
/// A descriptor is meant to carry a fee below one hundred percent; see
/// [`Config::well_formed`].
#[derive(Clone, Copy, Debug, PartialEq, Eq)]
pub struct Config {
    /// The seed the pool's signing identity is derived from.
    pub seed: u64,
    /// The first asset of the pair.
    pub mint_x: Address,
    /// The second asset of the pair.
    pub mint_y: Address,
    /// The fee, in basis points of the input.
    pub fee: u16,
    /// While set, the pool takes no exchange.
    pub locked: bool,
    /// The bump that completes the derivation of the pool's signing identity.
    pub config_bump: u8,
}

impl Config {
    /// The fee is below one hundred percent.
    pub open spec fn well_formed(self) -> bool {
        self.fee < 10_000
    }

    /// A descriptor of these fields, if the fee is below one hundred percent.
    pub fn new(
        seed: u64,
        mint_x: Address,
        mint_y: Address,
        fee: u16,
        locked: bool,
        config_bump: u8,
    ) -> (r: Option<Config>)
        ensures
            fee < 10_000 ==> r == Some(Config { seed, mint_x, mint_y, fee, locked, config_bump }),
            fee < 10_000 ==> r.unwrap().well_formed(),
            fee >= 10_000 ==> r.is_none(),
    {
        if fee < 10_000 {
            Some(Config { seed, mint_x, mint_y, fee, locked, config_bump })
        } else {
            None
        }
    }
}

/// A custody account: a balance of one asset under one owning authority.
#[derive(Clone, Copy, Debug, PartialEq, Eq)]
pub struct TokenAccount {
    /// The asset held.
    pub mint: Address,
    /// The authority that may move the balance out.
    pub owner: Address,
    /// The balance.
    pub amount: u64,
}

} // verus!
