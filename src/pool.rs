use vstd::prelude::*;

use crate::account::AccountId;
use crate::error::BridgeError;

verus! {

/// Notification of a payout from the reserve.
#[derive(Debug, Clone, Copy, PartialEq, Eq, Structural)]
pub struct LiquidityReleased {
    pub to: AccountId,
    pub amount: u128,
}

/// Notification of a top-up of the reserve.
#[derive(Debug, Clone, Copy, PartialEq, Eq, Structural)]
pub struct FundsReceived {
    pub from: AccountId,
    pub amount: u128,
}

/// `total + amount`, or the largest `u128` where that does not fit.
pub open spec fn saturating_sum(total: u128, amount: u128) -> u128 {
    if total as int + amount as int > u128::MAX {
        u128::MAX
    } else {
        (total + amount) as u128
    }
}

/// The destination side of the bridge: a reserve that pays out only on the
/// administrator's instruction, and a running total of what it paid.
///
/// The reserve is the pool account's balance as the host ledger keeps it.
/// The host reports it at the start of each call through `observe_balance`,
/// and the pool's decisions read that figure, never a counter of its own.
#[derive(Debug, Clone, Copy, PartialEq, Eq, Structural)]
pub struct InkPool {
    admin: AccountId,
    total_released: u128,
    balance: u128,
}

impl InkPool {
    /// The administrator.
    pub closed spec fn spec_admin(&self) -> AccountId {
        self.admin
    }

    /// All that was ever released, saturating at the largest `u128`.
    pub closed spec fn spec_total_released(&self) -> u128 {
        self.total_released
    }

    /// The live reserve balance.
    pub closed spec fn spec_balance(&self) -> u128 {
        self.balance
    }

    /// A pool run by `admin`, with nothing released and an empty reserve.
    pub fn new(admin: AccountId) -> (r: InkPool)
        ensures
            r.spec_admin() == admin,
            r.spec_total_released() == 0,
            r.spec_balance() == 0,
    {
        InkPool { admin, total_released: 0, balance: 0 }
    }

    /// A pool run by the account that creates it.
    pub fn default(caller: AccountId) -> (r: InkPool)
        ensures
            r.spec_admin() == caller,
            r.spec_total_released() == 0,
            r.spec_balance() == 0,
    {
        InkPool::new(caller)
    }

    /// Rebuilds a pool from stored parts and the live reserve balance.
    pub fn restore(admin: AccountId, total_released: u128, live: u128) -> (r: InkPool)
        ensures
            r.spec_admin() == admin,
            r.spec_total_released() == total_released,
            r.spec_balance() == live,
    {
        InkPool { admin, total_released, balance: live }
    }

    /// Takes the reserve balance as the host reports it.
    pub fn observe_balance(&mut self, live: u128)
        ensures
            final(self).spec_balance() == live,
            final(self).spec_admin() == old(self).spec_admin(),
            final(self).spec_total_released() == old(self).spec_total_released(),
    {
        self.balance = live;
    }

    /// Accepts a top-up of `transferred` from `caller`; anyone may fund the
    /// pool. The reserve grows by the amount, nothing else changes, and the
    /// one funded notification is returned.
    pub fn fund(&mut self, caller: AccountId, transferred: u128) -> (r: FundsReceived)
        requires
            old(self).spec_balance() + transferred <= u128::MAX,
        ensures
            r == (FundsReceived { from: caller, amount: transferred }),
            final(self).spec_balance() == old(self).spec_balance() + transferred,
            final(self).spec_admin() == old(self).spec_admin(),
            final(self).spec_total_released() == old(self).spec_total_released(),
    {
        self.balance = self.balance + transferred;
        FundsReceived { from: caller, amount: transferred }
    }

    /// Pays `amount` out of the reserve to `to`. Only the administrator may
    /// call it, the amount must be positive and at most the live reserve, and
    /// `transfer_ok` says whether the host moved it. On success the reserve
    /// shrinks by `amount`, the total released grows by it, and the one
    /// released notification is returned.
    pub fn release_liquidity(
        &mut self,
        caller: AccountId,
        to: AccountId,
        amount: u128,
        transfer_ok: bool,
    ) -> (r: Result<LiquidityReleased, BridgeError>)
        ensures
            caller != old(self).spec_admin() ==> r == Err::<LiquidityReleased, BridgeError>(
                BridgeError::Unauthorized,
            ),
            caller == old(self).spec_admin() && amount == 0 ==> r == Err::<
                LiquidityReleased,
                BridgeError,
            >(BridgeError::InvalidAmount),
            caller == old(self).spec_admin() && amount > old(self).spec_balance() ==> r == Err::<
                LiquidityReleased,
                BridgeError,
            >(BridgeError::InsufficientReserve),
            caller == old(self).spec_admin() && 0 < amount <= old(self).spec_balance()
                && !transfer_ok ==> r == Err::<LiquidityReleased, BridgeError>(
                BridgeError::TransferFailed,
            ),
            r is Err ==> *final(self) == *old(self),
            caller == old(self).spec_admin() && 0 < amount <= old(self).spec_balance()
                && transfer_ok ==> r == Ok::<LiquidityReleased, BridgeError>(
                LiquidityReleased { to, amount },
            ) && final(self).spec_balance() == old(self).spec_balance() - amount
                && final(self).spec_total_released() == saturating_sum(
                old(self).spec_total_released(),
                amount,
            ) && final(self).spec_admin() == old(self).spec_admin(),
    {
        if caller != self.admin {
            return Err(BridgeError::Unauthorized);
        }
        if amount == 0 {
            return Err(BridgeError::InvalidAmount);
        }
        if self.balance < amount {
            return Err(BridgeError::InsufficientReserve);
        }
        if !transfer_ok {
            return Err(BridgeError::TransferFailed);
        }
        self.balance = self.balance - amount;
        self.total_released = self.total_released.saturating_add(amount);
        Ok(LiquidityReleased { to, amount })
    }

    /// The administrator.
    pub fn get_admin(&self) -> (r: AccountId)
        ensures
            r == self.spec_admin(),
    {
        self.admin
    }

    /// The live reserve balance.
    pub fn get_balance(&self) -> (r: u128)
        ensures
            r == self.spec_balance(),
    {
        self.balance
    }

    /// All that was ever released.
    pub fn get_total_released(&self) -> (r: u128)
        ensures
            r == self.spec_total_released(),
    {
        self.total_released
    }

    /// Replaces the administrator; only the current administrator may.
    pub fn set_admin(&mut self, caller: AccountId, new_admin: AccountId) -> (r: Result<
        (),
        BridgeError,
    >)
        ensures
            caller != old(self).spec_admin() ==> r == Err::<(), BridgeError>(
                BridgeError::Unauthorized,
            ) && *final(self) == *old(self),
            caller == old(self).spec_admin() ==> r is Ok && final(self).spec_admin() == new_admin
                && final(self).spec_balance() == old(self).spec_balance()
                && final(self).spec_total_released() == old(self).spec_total_released(),
    {
        if caller != self.admin {
            return Err(BridgeError::Unauthorized);
        }
        self.admin = new_admin;
        Ok(())
    }
}

/// The total released never decreases: a successful release leaves it at
/// least where it was, and grows it by exactly the amount unless it is
/// already saturated.
pub proof fn lemma_total_released_monotonic(total: u128, amount: u128)
    ensures
        saturating_sum(total, amount) >= total,
        total as int + amount as int <= u128::MAX ==> saturating_sum(total, amount) == total
            + amount,
{
}

} // verus!
