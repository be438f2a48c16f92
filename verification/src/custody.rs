//! Custody: who may move a balance, and the transfer between two accounts.

use vstd::prelude::*;
use vstd::bytes::{spec_u64_to_le_bytes, u64_to_le_bytes};
use crate::address::Address;
use crate::errors::AmmError;
use crate::state::TokenAccount;

verus! {

/// The pool's right to move its vaults' balances. It is no key: it names the
/// pool's identity together with the seed and the bump that identity is derived
/// from, and the host that runs the exchange answers for the derivation.
#[derive(Clone, Copy, Debug, PartialEq, Eq)]
pub struct SigningCapability {
    /// The identity the capability signs as.
    pub pool: Address,
    /// The seed of the derivation.
    pub seed: u64,
    /// The bump of the derivation.
    pub bump: u8,
}

/// The bytes `config`, the first seed of every pool's derivation.
pub open spec fn config_tag() -> Seq<u8> {
    seq![99u8, 111u8, 110u8, 102u8, 105u8, 103u8]
}

impl SigningCapability {
    /// The capability of the pool `pool`, derived with `seed` and `bump`.
    pub fn derive(pool: Address, seed: u64, bump: u8) -> (r: SigningCapability)
        ensures
            r == (SigningCapability { pool, seed, bump }),
    {
        SigningCapability { pool, seed, bump }
    }

    /// The three seeds that the capability hands to the host: the tag, the
    /// seed in little-endian order, and the bump.
    pub open spec fn seeds(self) -> Seq<Seq<u8>> {
        seq![config_tag(), spec_u64_to_le_bytes(self.seed), seq![self.bump]]
    }

    /// Writes out the seeds of the derivation.
    pub fn signer_seeds(&self) -> (r: Vec<Vec<u8>>)
        ensures
            r.deep_view() == self.seeds(),
    {
        let tag: Vec<u8> = vec![99u8, 111u8, 110u8, 102u8, 105u8, 103u8];
        let seed: Vec<u8> = u64_to_le_bytes(self.seed);
        let bump: Vec<u8> = vec![self.bump];
        let r: Vec<Vec<u8>> = vec![tag, seed, bump];
        assert(r@[0].deep_view() =~= config_tag());
        assert(r@[1].deep_view() =~= spec_u64_to_le_bytes(self.seed));
        assert(r@[2].deep_view() =~= seq![self.bump]);
        assert(r.deep_view() =~= self.seeds());
        r
    }
}

/// Who stands behind a transfer: the caller, by signature, or the pool, by its
/// capability.
#[derive(Clone, Copy, Debug, PartialEq, Eq)]
pub enum Authorizer {
    /// The caller, who signed the call.
    User(Address),
    /// The pool, through its signing capability.
    Pool(SigningCapability),
}

impl Authorizer {
    /// The identity the authorizer acts as.
    pub open spec fn identity(self) -> Address {
        match self {
            Authorizer::User(key) => key,
            Authorizer::Pool(capability) => capability.pool,
        }
    }

    /// The identity the authorizer acts as.
    pub fn authority(&self) -> (r: Address)
        ensures
            r == self.identity(),
    {
        match self {
            Authorizer::User(key) => *key,
            Authorizer::Pool(capability) => capability.pool,
        }
    }
}

/// The first reason, if any, for which a transfer of `amount` from `from` to
/// `to` under `authority` is rejected. The checks come in this order: the two
/// accounts hold the same asset, the authority owns the source, the source
/// holds the amount, the destination has room for it.
pub open spec fn transfer_rejection(
    from: TokenAccount,
    to: TokenAccount,
    authority: Address,
    amount: u64,
) -> Option<AmmError> {
    if from.mint != to.mint {
        Some(AmmError::MintMismatch)
    } else if from.owner != authority {
        Some(AmmError::Unauthorized)
    } else if from.amount < amount {
        Some(AmmError::InsufficientFunds)
    } else if to.amount + amount > u64::MAX {
        Some(AmmError::ArithmeticOverflow)
    } else {
        None
    }
}

/// `account` with its balance lowered by `amount`.
pub open spec fn debited(account: TokenAccount, amount: u64) -> TokenAccount {
    TokenAccount { amount: (account.amount - amount) as u64, ..account }
}

/// `account` with its balance raised by `amount`.
pub open spec fn credited(account: TokenAccount, amount: u64) -> TokenAccount {
    TokenAccount { amount: (account.amount + amount) as u64, ..account }
}

/// Moves `amount` from `from` to `to` on behalf of `authorizer`.
///
/// A rejected transfer changes neither account. An accepted one lowers the
/// source and raises the destination by `amount` and touches nothing else.
pub fn transfer(
    from: &mut TokenAccount,
    to: &mut TokenAccount,
    authorizer: &Authorizer,
    amount: u64,
) -> (r: Result<(), AmmError>)
    ensures
        transfer_rejection(*old(from), *old(to), authorizer.identity(), amount) matches Some(e)
            ==> r == Err::<(), AmmError>(e) && *final(from) == *old(from) && *final(to) == *old(to),
        transfer_rejection(*old(from), *old(to), authorizer.identity(), amount) is None ==> r
            == Ok::<(), AmmError>(()) && *final(from) == debited(*old(from), amount) && *final(to)
            == credited(*old(to), amount),
{
    if from.mint != to.mint {
        return Err(AmmError::MintMismatch);
    }
    if from.owner != authorizer.authority() {
        return Err(AmmError::Unauthorized);
    }
    let lowered: u64 = match from.amount.checked_sub(amount) {
        Some(v) => v,
        None => {
            return Err(AmmError::InsufficientFunds);
        },
    };
    let raised: u64 = match to.amount.checked_add(amount) {
        Some(v) => v,
        None => {
            return Err(AmmError::ArithmeticOverflow);
        },
    };
    from.amount = lowered;
    to.amount = raised;
    Ok(())
}

} // verus!
