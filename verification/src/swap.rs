//! The exchange: one asset in, the other out, against the pool's two vaults.

use vstd::prelude::*;
use crate::address::Address;
use crate::curve::{
    amount_after_fee, fee_adjusted, lemma_reserve_after_bounds, lemma_round_trip,
    lemma_round_trip_criterion, output_for, prices_exactly, swap_output,
};
use crate::custody::{
    credited, debited, transfer, transfer_rejection, Authorizer, SigningCapability,
};
use crate::errors::AmmError;
use crate::state::{Config, TokenAccount};

verus! {

/// Everything one exchange touches: the caller, the pair of assets, the pool
/// and its two vaults, and the caller's two accounts.
///
/// The reserves of the pool are the balances of its vaults, read anew by every
/// call; nothing else records them.
#[derive(Clone, Copy, Debug, PartialEq, Eq)]
pub struct Swap {
    /// The caller, who signed the call.
    pub user: Address,
    /// The first asset of the pair.
    pub mint_x: Address,
    /// The second asset of the pair.
    pub mint_y: Address,
    /// The pool's signing identity, the authority over both vaults.
    pub pool: Address,
    /// The pool's descriptor.
    pub config: Config,
    /// The pool's reserve of the first asset.
    pub vault_x: TokenAccount,
    /// The pool's reserve of the second asset.
    pub vault_y: TokenAccount,
    /// The caller's account of the first asset.
    pub user_x: TokenAccount,
    /// The caller's account of the second asset.
    pub user_y: TokenAccount,
}

/// `after` and `answer` are what a call leaves and returns that was rejected
/// with `e` before any balance moved.
pub open spec fn rejected_untouched<T>(
    before: Swap,
    after: Swap,
    answer: Result<T, AmmError>,
    e: AmmError,
) -> bool {
    after == before && answer == Err::<T, AmmError>(e)
}

impl Swap {
    /// Every account holds the asset it stands for.
    pub open spec fn mints_agree(self) -> bool {
        &&& self.config.mint_x == self.mint_x
        &&& self.config.mint_y == self.mint_y
        &&& self.vault_x.mint == self.mint_x
        &&& self.vault_y.mint == self.mint_y
        &&& self.user_x.mint == self.mint_x
        &&& self.user_y.mint == self.mint_y
    }

    /// The pool owns both vaults and the caller owns both of their accounts.
    pub open spec fn authorities_agree(self) -> bool {
        &&& self.vault_x.owner == self.pool
        &&& self.vault_y.owner == self.pool
        &&& self.user_x.owner == self.user
        &&& self.user_y.owner == self.user
    }

    /// The accounts fit together: the assets agree and so do the authorities.
    pub open spec fn well_formed(self) -> bool {
        self.mints_agree() && self.authorities_agree()
    }

    /// Checks that the descriptor, the vaults and the caller's accounts hold
    /// the assets of the pair, each its own.
    pub fn check_mints(&self) -> (r: Result<(), AmmError>)
        ensures
            self.mints_agree() ==> r == Ok::<(), AmmError>(()),
            !self.mints_agree() ==> r == Err::<(), AmmError>(AmmError::MintMismatch),
    {
        if self.config.mint_x == self.mint_x && self.config.mint_y == self.mint_y
            && self.vault_x.mint == self.mint_x && self.vault_y.mint == self.mint_y
            && self.user_x.mint == self.mint_x && self.user_y.mint == self.mint_y {
            Ok(())
        } else {
            Err(AmmError::MintMismatch)
        }
    }

    /// Checks that the vaults are the pool's and the other two accounts the
    /// caller's.
    pub fn check_authorities(&self) -> (r: Result<(), AmmError>)
        ensures
            self.authorities_agree() ==> r == Ok::<(), AmmError>(()),
            !self.authorities_agree() ==> r == Err::<(), AmmError>(AmmError::Unauthorized),
    {
        if self.vault_x.owner == self.pool && self.vault_y.owner == self.pool && self.user_x.owner
            == self.user && self.user_y.owner == self.user {
            Ok(())
        } else {
            Err(AmmError::Unauthorized)
        }
    }

    /// Checks the accounts before anything is moved: first the assets, then
    /// the authorities. Nothing is changed.
    pub fn validate(&self) -> (r: Result<(), AmmError>)
        ensures
            self.well_formed() <==> r == Ok::<(), AmmError>(()),
            !self.mints_agree() <==> r == Err::<(), AmmError>(AmmError::MintMismatch),
            self.mints_agree() && !self.authorities_agree() <==> r == Err::<(), AmmError>(
                AmmError::Unauthorized,
            ),
    {
        match self.check_mints() {
            Ok(()) => {},
            Err(e) => {
                return Err(e);
            },
        }
        self.check_authorities()
    }

    /// The reserve that the input joins.
    pub open spec fn reserve_in(self, is_x: bool) -> u64 {
        if is_x {
            self.vault_x.amount
        } else {
            self.vault_y.amount
        }
    }

    /// The reserve that the output leaves.
    pub open spec fn reserve_out(self, is_x: bool) -> u64 {
        if is_x {
            self.vault_y.amount
        } else {
            self.vault_x.amount
        }
    }

    /// The caller's balance of the first asset (`is_x`) or of the second.
    pub open spec fn user_balance(self, is_x: bool) -> u64 {
        if is_x {
            self.user_x.amount
        } else {
            self.user_y.amount
        }
    }

    /// `self` is `before` with balances moved between each vault and the
    /// caller's account of the same asset: the descriptor, the identities, the
    /// assets and the owners are those of `before`, and of each asset the
    /// vault and the caller together hold what they held.
    pub open spec fn moved_from(self, before: Swap) -> bool {
        &&& self.user == before.user
        &&& self.mint_x == before.mint_x
        &&& self.mint_y == before.mint_y
        &&& self.pool == before.pool
        &&& self.config == before.config
        &&& self.vault_x == TokenAccount { amount: self.vault_x.amount, ..before.vault_x }
        &&& self.vault_y == TokenAccount { amount: self.vault_y.amount, ..before.vault_y }
        &&& self.user_x == TokenAccount { amount: self.user_x.amount, ..before.user_x }
        &&& self.user_y == TokenAccount { amount: self.user_y.amount, ..before.user_y }
        &&& self.vault_x.amount + self.user_x.amount == before.vault_x.amount
            + before.user_x.amount
        &&& self.vault_y.amount + self.user_y.amount == before.vault_y.amount
            + before.user_y.amount
    }

    /// The call passes the checks that come before any pricing: the pool is
    /// open, the amount is positive and the fee is no more than the whole.
    pub open spec fn computes(self, amount: u64) -> bool {
        !self.config.locked && amount > 0 && self.config.fee <= 10_000
    }

    /// One of the two vaults holds nothing.
    pub open spec fn has_empty_vault(self) -> bool {
        self.vault_x.amount == 0 || self.vault_y.amount == 0
    }

    /// The output that `amount` of input is priced at, fee taken.
    pub open spec fn priced(self, is_x: bool, amount: u64) -> nat {
        output_for(
            self.reserve_in(is_x) as nat,
            self.reserve_out(is_x) as nat,
            amount as nat,
            self.config.fee as nat,
        )
    }

    /// What a call is answered with before any balance moves: the first
    /// rejection in the order lock, amount, fee, reserves, minimum; otherwise
    /// the output owed.
    pub open spec fn quoted(self, is_x: bool, amount: u64, min: u64) -> Result<u64, AmmError> {
        if self.config.locked {
            Err(AmmError::PoolLocked)
        } else if amount == 0 {
            Err(AmmError::InvalidAmount)
        } else if self.config.fee > 10_000 {
            Err(AmmError::ArithmeticOverflow)
        } else if self.has_empty_vault() {
            Err(AmmError::DivisionByZero)
        } else if self.priced(is_x, amount) < min {
            Err(AmmError::SlippageExceeded)
        } else {
            Ok(self.priced(is_x, amount) as u64)
        }
    }

    /// Prices an exchange of `amount` of the first asset (`is_x`) or of the
    /// second for the other, and holds the result against the caller's minimum
    /// `min`. Nothing is moved.
    pub fn quote(&self, is_x: bool, amount: u64, min: u64) -> (r: Result<u64, AmmError>)
        ensures
            r == self.quoted(is_x, amount, min),
            r is Ok ==> min <= self.priced(is_x, amount) <= self.reserve_out(is_x),
    {
        if self.config.locked {
            return Err(AmmError::PoolLocked);
        }
        if amount == 0 {
            return Err(AmmError::InvalidAmount);
        }
        let amount_after_fee: u64 = match amount_after_fee(amount, self.config.fee) {
            Ok(v) => v,
            Err(e) => {
                return Err(e);
            },
        };
        let priced: Result<u64, AmmError> = if is_x {
            swap_output(self.vault_x.amount, self.vault_y.amount, amount_after_fee)
        } else {
            swap_output(self.vault_y.amount, self.vault_x.amount, amount_after_fee)
        };
        let output_amount: u64 = match priced {
            Ok(v) => v,
            Err(e) => {
                return Err(e);
            },
        };
        if output_amount < min {
            return Err(AmmError::SlippageExceeded);
        }
        Ok(output_amount)
    }

    /// The rejection, if any, of a deposit of `amount` from the caller's
    /// account of the chosen asset into the vault of that asset.
    pub open spec fn deposit_rejection(self, is_x: bool, amount: u64) -> Option<AmmError> {
        if is_x {
            transfer_rejection(self.user_x, self.vault_x, self.user, amount)
        } else {
            transfer_rejection(self.user_y, self.vault_y, self.user, amount)
        }
    }

    /// The accounts once `amount` of the chosen asset went from the caller to
    /// the vault.
    pub open spec fn deposited(self, is_x: bool, amount: u64) -> Swap {
        if is_x {
            Swap {
                user_x: debited(self.user_x, amount),
                vault_x: credited(self.vault_x, amount),
                ..self
            }
        } else {
            Swap {
                user_y: debited(self.user_y, amount),
                vault_y: credited(self.vault_y, amount),
                ..self
            }
        }
    }

    /// Moves `amount` of the first asset (`is_x`) or of the second from the
    /// caller's account into the pool's vault, on the caller's signature.
    pub fn deposit_tokens(&mut self, is_x: bool, amount: u64) -> (r: Result<(), AmmError>)
        ensures
            old(self).deposit_rejection(is_x, amount) matches Some(e) ==> rejected_untouched(
                *old(self),
                *final(self),
                r,
                e,
            ),
            old(self).deposit_rejection(is_x, amount) is None ==> r == Ok::<(), AmmError>(())
                && *final(self) == old(self).deposited(is_x, amount),
            final(self).moved_from(*old(self)),
    {
        let authorizer = Authorizer::User(self.user);
        if is_x {
            transfer(&mut self.user_x, &mut self.vault_x, &authorizer, amount)
        } else {
            transfer(&mut self.user_y, &mut self.vault_y, &authorizer, amount)
        }
    }

    /// The capability under which the pool moves its vaults' balances.
    pub open spec fn capability(self) -> SigningCapability {
        SigningCapability { pool: self.pool, seed: self.config.seed, bump: self.config.config_bump }
    }

    /// The pool's capability, derived from its identity and from the seed and
    /// the bump of its descriptor.
    pub fn signing_capability(&self) -> (r: SigningCapability)
        ensures
            r == self.capability(),
    {
        SigningCapability::derive(self.pool, self.config.seed, self.config.config_bump)
    }

    /// The rejection, if any, of a withdrawal of `amount` from the vault of
    /// the chosen asset into the caller's account of that asset.
    pub open spec fn withdraw_rejection(self, is_x: bool, amount: u64) -> Option<AmmError> {
        if is_x {
            transfer_rejection(
                self.vault_x,
                self.user_x,
                Authorizer::Pool(self.capability()).identity(),
                amount,
            )
        } else {
            transfer_rejection(
                self.vault_y,
                self.user_y,
                Authorizer::Pool(self.capability()).identity(),
                amount,
            )
        }
    }

    /// The accounts once `amount` of the chosen asset went from the vault to
    /// the caller.
    pub open spec fn withdrawn(self, is_x: bool, amount: u64) -> Swap {
        if is_x {
            Swap {
                vault_x: debited(self.vault_x, amount),
                user_x: credited(self.user_x, amount),
                ..self
            }
        } else {
            Swap {
                vault_y: debited(self.vault_y, amount),
                user_y: credited(self.user_y, amount),
                ..self
            }
        }
    }

    /// Moves `amount` of the first asset (`is_x`) or of the second from the
    /// pool's vault into the caller's account, under the pool's capability.
    pub fn withdraw_tokens(&mut self, is_x: bool, amount: u64) -> (r: Result<(), AmmError>)
        ensures
            old(self).withdraw_rejection(is_x, amount) matches Some(e) ==> rejected_untouched(
                *old(self),
                *final(self),
                r,
                e,
            ),
            old(self).withdraw_rejection(is_x, amount) is None ==> r == Ok::<(), AmmError>(())
                && *final(self) == old(self).withdrawn(is_x, amount),
            final(self).moved_from(*old(self)),
    {
        let authorizer = Authorizer::Pool(self.signing_capability());
        if is_x {
            transfer(&mut self.vault_x, &mut self.user_x, &authorizer, amount)
        } else {
            transfer(&mut self.vault_y, &mut self.user_y, &authorizer, amount)
        }
    }

    /// What an exchange leaves and answers.
    ///
    /// A call that is rejected before the deposit leaves the accounts as they
    /// were. The deposit moves the full nominal input, the withdrawal the
    /// priced output. Nothing is rolled back: if the withdrawal is rejected,
    /// the deposit stands in the accounts that are left, and it is for the host
    /// to discard them.
    pub open spec fn executed(self, is_x: bool, amount: u64, min: u64) -> (
        Swap,
        Result<u64, AmmError>,
    ) {
        match self.quoted(is_x, amount, min) {
            Err(e) => (self, Err(e)),
            Ok(output) => match self.deposit_rejection(is_x, amount) {
                Some(e) => (self, Err(e)),
                None => {
                    let held = self.deposited(is_x, amount);
                    match held.withdraw_rejection(!is_x, output) {
                        Some(e) => (held, Err(e)),
                        None => (held.withdrawn(!is_x, output), Ok(output)),
                    }
                },
            },
        }
    }

    /// Exchanges `amount` of the first asset (`is_x`) or of the second for at
    /// least `min` of the other, and returns the output that was paid.
    ///
    /// The call prices the exchange as [`Swap::quote`] does, then deposits
    /// `amount` and withdraws the priced output, in that order. A call that
    /// the pricing rejects moves nothing, and neither does one whose deposit
    /// is rejected. Nothing is rolled back after the deposit: on accounts that
    /// passed [`Swap::validate`] the withdrawal is only rejected where the
    /// caller's account has no room for the output, and the host is to discard
    /// what a rejected call leaves.
    pub fn execute(&mut self, is_x: bool, amount: u64, min: u64) -> (r: Result<u64, AmmError>)
        ensures
            (*final(self), r) == old(self).executed(is_x, amount, min),
            final(self).moved_from(*old(self)),
            old(self).config.locked ==> rejected_untouched(
                *old(self),
                *final(self),
                r,
                AmmError::PoolLocked,
            ),
            !old(self).config.locked && amount == 0 ==> rejected_untouched(
                *old(self),
                *final(self),
                r,
                AmmError::InvalidAmount,
            ),
            old(self).computes(amount) && old(self).has_empty_vault() ==> rejected_untouched(
                *old(self),
                *final(self),
                r,
                AmmError::DivisionByZero,
            ),
            old(self).computes(amount) && !old(self).has_empty_vault() && old(self).priced(
                is_x,
                amount,
            ) < min ==> rejected_untouched(
                *old(self),
                *final(self),
                r,
                AmmError::SlippageExceeded,
            ),
    {
        let output_amount: u64 = match self.quote(is_x, amount, min) {
            Ok(v) => v,
            Err(e) => {
                return Err(e);
            },
        };
        match self.deposit_tokens(is_x, amount) {
            Ok(()) => {},
            Err(e) => {
                return Err(e);
            },
        }
        match self.withdraw_tokens(!is_x, output_amount) {
            Ok(()) => Ok(output_amount),
            Err(e) => Err(e),
        }
    }

    /// Exchanges `amount` of the first asset (`is_x`) or of the second for at
    /// least `min` of the other: [`Swap::execute`] without the output.
    pub fn swap(&mut self, is_x: bool, amount: u64, min: u64) -> (r: Result<(), AmmError>)
        ensures
            *final(self) == old(self).executed(is_x, amount, min).0,
            r is Ok <==> old(self).executed(is_x, amount, min).1 is Ok,
            r matches Err(e) ==> old(self).executed(is_x, amount, min).1 == Err::<u64, AmmError>(e),
            final(self).moved_from(*old(self)),
            old(self).config.locked ==> rejected_untouched(
                *old(self),
                *final(self),
                r,
                AmmError::PoolLocked,
            ),
            !old(self).config.locked && amount == 0 ==> rejected_untouched(
                *old(self),
                *final(self),
                r,
                AmmError::InvalidAmount,
            ),
            old(self).computes(amount) && old(self).has_empty_vault() ==> rejected_untouched(
                *old(self),
                *final(self),
                r,
                AmmError::DivisionByZero,
            ),
            old(self).computes(amount) && !old(self).has_empty_vault() && old(self).priced(
                is_x,
                amount,
            ) < min ==> rejected_untouched(
                *old(self),
                *final(self),
                r,
                AmmError::SlippageExceeded,
            ),
    {
        match self.execute(is_x, amount, min) {
            Ok(_) => Ok(()),
            Err(e) => Err(e),
        }
    }

    /// The balances of each asset, the vault's and the caller's, add up within
    /// the range of a balance, as those of one asset's supply do.
    pub open spec fn supply_fits(self) -> bool {
        &&& self.vault_x.amount + self.user_x.amount <= u64::MAX
        &&& self.vault_y.amount + self.user_y.amount <= u64::MAX
    }
}

/// On accounts that fit together an exchange goes through whole or changes
/// nothing: it is rejected exactly when the pricing is, or when the caller
/// holds less than the input, and otherwise both transfers are made.
pub proof fn lemma_execute_all_or_nothing(before: Swap, is_x: bool, amount: u64, min: u64)
    requires
        before.well_formed(),
        before.supply_fits(),
    ensures
        before.quoted(is_x, amount, min) matches Err(e) ==> before.executed(is_x, amount, min) == (
            before,
            Err::<u64, AmmError>(e),
        ),
        before.quoted(is_x, amount, min) is Ok && before.user_balance(is_x) < amount
            ==> before.executed(is_x, amount, min) == (
            before,
            Err::<u64, AmmError>(AmmError::InsufficientFunds),
        ),
        before.quoted(is_x, amount, min) is Ok && before.user_balance(is_x) >= amount
            ==> before.executed(is_x, amount, min) == (
            before.deposited(is_x, amount).withdrawn(
                !is_x,
                before.quoted(is_x, amount, min).unwrap(),
            ),
            before.quoted(is_x, amount, min),
        ),
{
    if before.quoted(is_x, amount, min) is Ok {
        lemma_reserve_after_bounds(
            before.reserve_in(is_x) as nat,
            before.reserve_out(is_x) as nat,
            fee_adjusted(amount as nat, before.config.fee as nat),
        );
    }
}

/// An exchange and, at once, the exchange of all that was received back, with
/// the same fee and nothing in between.
///
/// The caller is left short by the input less what came back. Less comes back
/// than was put in exactly when `left * amount >= back * start + left + back`,
/// where `start` is the input reserve that the first exchange began with,
/// `left` the output reserve that it left, and `back` what the second exchange
/// priced. Where the first pricing is not rounded, no more comes back than was
/// put in: all of it with no fee, and with a fee, if the second pricing is not
/// rounded either, strictly less. Rounding is in the trader's favour, so that
/// where a pricing is rounded more can come back than was put in.
pub proof fn lemma_round_trip_costs(
    before: Swap,
    is_x: bool,
    amount: u64,
    min_there: u64,
    min_back: u64,
)
    requires
        before.executed(is_x, amount, min_there).1 is Ok,
        before.executed(is_x, amount, min_there).0.executed(
            !is_x,
            before.executed(is_x, amount, min_there).1.unwrap(),
            min_back,
        ).1 is Ok,
    ensures
        ({
            let (between, received) = before.executed(is_x, amount, min_there);
            let (after, returned) = between.executed(!is_x, received.unwrap(), min_back);
            let fee = before.config.fee as nat;
            let start = before.reserve_in(is_x) as nat;
            let left = between.reserve_in(!is_x) as nat;
            let back = fee_adjusted(received.unwrap() as nat, fee);
            let first_exact = prices_exactly(
                start,
                before.reserve_out(is_x) as nat,
                fee_adjusted(amount as nat, fee),
            );
            let second_exact = prices_exactly(left, between.reserve_out(!is_x) as nat, back);
            &&& after.user_balance(is_x) + amount == before.user_balance(is_x) + returned.unwrap()
            &&& after.user_balance(!is_x) == before.user_balance(!is_x)
            &&& returned.unwrap() < amount <==> left * amount >= back * start + left + back
            &&& first_exact ==> returned.unwrap() <= amount
            &&& first_exact && fee == 0 ==> returned.unwrap() == amount
            &&& first_exact && second_exact && fee > 0 ==> returned.unwrap() < amount
        }),
{
    let fee = before.config.fee as nat;
    let x = before.reserve_in(is_x) as nat;
    let y = before.reserve_out(is_x) as nat;
    let there = fee_adjusted(amount as nat, fee);
    lemma_reserve_after_bounds(x, y, there);
    let (between, answer) = before.executed(is_x, amount, min_there);
    let received = answer.unwrap();
    assert(received == before.priced(is_x, amount));
    assert(between == before.deposited(is_x, amount).withdrawn(!is_x, received));
    assert(between.reserve_in(!is_x) == y - received);
    assert(between.reserve_out(!is_x) == x + amount);
    lemma_reserve_after_bounds(
        between.reserve_in(!is_x) as nat,
        between.reserve_out(!is_x) as nat,
        fee_adjusted(received as nat, fee),
    );
    lemma_round_trip_criterion(x, y, amount as nat, fee);
    if prices_exactly(x, y, there) {
        lemma_round_trip(x, y, amount as nat, fee);
    }
}

} // verus!
