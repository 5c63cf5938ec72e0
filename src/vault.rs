use vstd::prelude::*;

use crate::account::AccountId;
use crate::error::BridgeError;

verus! {

/// One depositor's record in the locked-balance ledger.
#[derive(Debug, Clone, Copy, PartialEq, Eq, Structural)]
pub struct LockEntry {
    pub owner: AccountId,
    pub amount: i128,
}

/// Notification of a successful deposit: who locked how much, and where the
/// relayer should deliver the equivalent on the other ledger.
#[derive(Debug, Clone, PartialEq, Eq)]
pub struct LockEvent {
    pub depositor: AccountId,
    pub destination_hint: String,
    pub amount: i128,
}

/// Notification of collateral returned to a depositor.
#[derive(Debug, Clone, Copy, PartialEq, Eq, Structural)]
pub struct UnlockEvent {
    pub to: AccountId,
    pub amount: i128,
}

/// Notification of an administrator payout from the vault's custody that
/// leaves the locked-balance ledger untouched.
#[derive(Debug, Clone, Copy, PartialEq, Eq, Structural)]
pub struct ReleaseEvent {
    pub to: AccountId,
    pub amount: i128,
}

/// What `e` adds to the balance of `who`.
pub open spec fn share_of(e: LockEntry, who: AccountId) -> int {
    if e.owner == who {
        e.amount as int
    } else {
        0
    }
}

/// The locked balance of `who` recorded in `s`.
pub open spec fn balance_in(s: Seq<LockEntry>, who: AccountId) -> int
    decreases s.len(),
{
    if s.len() == 0 {
        0
    } else {
        balance_in(s.drop_last(), who) + share_of(s.last(), who)
    }
}

/// The sum of all amounts recorded in `s`.
pub open spec fn sum_locked(s: Seq<LockEntry>) -> int
    decreases s.len(),
{
    if s.len() == 0 {
        0
    } else {
        sum_locked(s.drop_last()) + s.last().amount
    }
}

/// No depositor has two records.
pub open spec fn owners_unique(s: Seq<LockEntry>) -> bool {
    forall|a: int, b: int|
        0 <= a < s.len() && 0 <= b < s.len() && a != b ==> #[trigger] s[a].owner != #[trigger] s[b].owner
}

/// No record holds a negative amount.
pub open spec fn amounts_nonnegative(s: Seq<LockEntry>) -> bool {
    forall|j: int| 0 <= j < s.len() ==> #[trigger] s[j].amount >= 0
}

proof fn lemma_balance_absent(s: Seq<LockEntry>, who: AccountId)
    requires
        forall|j: int| 0 <= j < s.len() ==> #[trigger] s[j].owner != who,
    ensures
        balance_in(s, who) == 0,
    decreases s.len(),
{
    if s.len() > 0 {
        assert(s.last().owner == s[s.len() - 1].owner);
        lemma_balance_absent(s.drop_last(), who);
    }
}

proof fn lemma_balance_at(s: Seq<LockEntry>, i: int, who: AccountId)
    requires
        owners_unique(s),
        0 <= i < s.len(),
        s[i].owner == who,
    ensures
        balance_in(s, who) == s[i].amount,
    decreases s.len(),
{
    let d = s.drop_last();
    if i == s.len() - 1 {
        assert forall|j: int| 0 <= j < d.len() implies #[trigger] d[j].owner != who by {
            assert(s[j].owner != s[i].owner);
        }
        lemma_balance_absent(d, who);
    } else {
        assert(s[s.len() - 1].owner != s[i].owner);
        assert forall|a: int, b: int|
            0 <= a < d.len() && 0 <= b < d.len() && a != b implies #[trigger] d[a].owner
            != #[trigger] d[b].owner by {
            assert(s[a].owner != s[b].owner);
        }
        lemma_balance_at(d, i, who);
    }
}

proof fn lemma_bounds(s: Seq<LockEntry>, who: AccountId)
    requires
        amounts_nonnegative(s),
    ensures
        0 <= balance_in(s, who) <= sum_locked(s),
        0 <= sum_locked(s),
    decreases s.len(),
{
    if s.len() > 0 {
        let d = s.drop_last();
        assert(s.last().amount == s[s.len() - 1].amount);
        assert forall|j: int| 0 <= j < d.len() implies #[trigger] d[j].amount >= 0 by {
            assert(s[j].amount >= 0);
        }
        lemma_bounds(d, who);
    }
}

proof fn lemma_push(s: Seq<LockEntry>, e: LockEntry)
    ensures
        forall|w: AccountId| #[trigger]
            balance_in(s.push(e), w) == balance_in(s, w) + share_of(e, w),
        sum_locked(s.push(e)) == sum_locked(s) + e.amount,
{
    assert(s.push(e).drop_last() =~= s);
}

proof fn lemma_update(s: Seq<LockEntry>, i: int, e: LockEntry)
    requires
        0 <= i < s.len(),
    ensures
        forall|w: AccountId| #[trigger]
            balance_in(s.update(i, e), w) == balance_in(s, w) - share_of(s[i], w) + share_of(e, w),
        sum_locked(s.update(i, e)) == sum_locked(s) - s[i].amount + e.amount,
    decreases s.len(),
{
    let u = s.update(i, e);
    let d = s.drop_last();
    if i == s.len() - 1 {
        assert(u.drop_last() =~= d);
        assert(u.last() == e);
        assert(s.last() == s[i]);
    } else {
        assert(u.drop_last() =~= d.update(i, e));
        assert(u.last() == s.last());
        assert(d[i] == s[i]);
        lemma_update(d, i, e);
    }
    assert forall|w: AccountId| #[trigger]
        balance_in(u, w) == balance_in(s, w) - share_of(s[i], w) + share_of(e, w) by {
        assert(balance_in(u, w) == balance_in(u.drop_last(), w) + share_of(u.last(), w));
        if i != s.len() - 1 {
            assert(balance_in(d.update(i, e), w) == balance_in(d, w) - share_of(d[i], w)
                + share_of(e, w));
        }
    }
}

proof fn lemma_prefix_sum(s: Seq<LockEntry>, i: int)
    requires
        amounts_nonnegative(s),
        0 <= i <= s.len(),
    ensures
        sum_locked(s.take(i)) <= sum_locked(s),
        i < s.len() ==> sum_locked(s.take(i + 1)) == sum_locked(s.take(i)) + s[i].amount,
    decreases s.len(),
{
    if i < s.len() {
        assert(s.take(i + 1).drop_last() =~= s.take(i));
        let d = s.drop_last();
        assert forall|j: int| 0 <= j < d.len() implies #[trigger] d[j].amount >= 0 by {
            assert(s[j].amount >= 0);
        }
        assert(s.last().amount == s[s.len() - 1].amount);
        lemma_prefix_sum(d, i);
        assert(d.take(i) =~= s.take(i));
    } else {
        assert(s.take(i) =~= s);
    }
}

/// The source side of the bridge: custody of deposits and a ledger of what
/// each depositor has locked.
pub struct VaultContract {
    admin: Option<AccountId>,
    entries: Vec<LockEntry>,
    total_locked: i128,
    /// Everything ever locked by successful deposits.
    deposited: Ghost<int>,
    /// Everything ever returned by successful unlocks.
    unlocked: Ghost<int>,
}

impl VaultContract {
    /// The administrator, if one was installed.
    pub closed spec fn spec_admin(&self) -> Option<AccountId> {
        self.admin
    }

    /// The locked balance of `who`: zero for an account that never deposited.
    pub closed spec fn spec_locked_balance(&self, who: AccountId) -> int {
        balance_in(self.entries@, who)
    }

    /// The total-locked counter.
    pub closed spec fn spec_total_locked(&self) -> int {
        self.total_locked as int
    }

    /// The sum of the locked balances of all depositors on record.
    pub closed spec fn spec_sum_of_balances(&self) -> int {
        sum_locked(self.entries@)
    }

    /// All successful deposits minus all successful unlocks.
    pub closed spec fn spec_net_deposits(&self) -> int {
        self.deposited@ - self.unlocked@
    }

    /// Every balance, the counter and the net deposits agree between the two.
    pub open spec fn same_books(&self, other: &VaultContract) -> bool {
        &&& forall|w: AccountId| #[trigger]
            self.spec_locked_balance(w) == other.spec_locked_balance(w)
        &&& self.spec_total_locked() == other.spec_total_locked()
        &&& self.spec_net_deposits() == other.spec_net_deposits()
    }

    /// `self` is `before` with `delta` added to the balance of `who`, to the
    /// counter and to the net deposits, and the administrator kept.
    pub open spec fn moved_by(&self, before: &VaultContract, who: AccountId, delta: int) -> bool {
        &&& self.spec_admin() == before.spec_admin()
        &&& self.spec_locked_balance(who) == before.spec_locked_balance(who) + delta
        &&& forall|w: AccountId|
            w != who ==> #[trigger] self.spec_locked_balance(w) == before.spec_locked_balance(w)
        &&& self.spec_total_locked() == before.spec_total_locked() + delta
        &&& self.spec_net_deposits() == before.spec_net_deposits() + delta
    }

    /// The vault's invariant: one record per depositor, no negative balance,
    /// and a counter equal both to the sum of the balances and to the net
    /// deposits.
    pub closed spec fn wf(&self) -> bool {
        &&& self.ledger_ok()
        &&& self.total_locked as int == self.deposited@ - self.unlocked@
    }

    spec fn ledger_ok(&self) -> bool {
        &&& owners_unique(self.entries@)
        &&& amounts_nonnegative(self.entries@)
        &&& self.total_locked as int == sum_locked(self.entries@)
    }

    /// A vault with no administrator and nothing locked.
    pub fn new() -> (r: VaultContract)
        ensures
            r.wf(),
            r.spec_admin() is None,
            r.spec_total_locked() == 0,
            r.spec_net_deposits() == 0,
            forall|w: AccountId| r.spec_locked_balance(w) == 0,
    {
        VaultContract {
            admin: None,
            entries: Vec::new(),
            total_locked: 0,
            deposited: Ghost(0),
            unlocked: Ghost(0),
        }
    }

    /// Installs the first administrator; refused once one is installed.
    pub fn init(&mut self, admin: AccountId) -> (r: Result<(), BridgeError>)
        requires
            old(self).wf(),
        ensures
            final(self).wf(),
            old(self).spec_admin() is Some ==> r == Err::<(), BridgeError>(
                BridgeError::AlreadyInitialized,
            ) && *final(self) == *old(self),
            old(self).spec_admin() is None ==> r is Ok && final(self).spec_admin() == Some(admin)
                && final(self).same_books(old(self)),
    {
        if self.admin.is_some() {
            return Err(BridgeError::AlreadyInitialized);
        }
        self.admin = Some(admin);
        Ok(())
    }

    fn is_admin(&self, caller: AccountId) -> (r: bool)
        ensures
            r == (self.spec_admin() == Some(caller)),
    {
        match self.admin {
            Some(a) => a == caller,
            None => false,
        }
    }

    fn find(&self, who: AccountId) -> (r: Option<usize>)
        ensures
            r matches Some(i) ==> i < self.entries@.len() && self.entries@[i as int].owner == who,
            r is None ==> forall|j: int|
                0 <= j < self.entries@.len() ==> #[trigger] self.entries@[j].owner != who,
    {
        let mut i: usize = 0;
        while i < self.entries.len()
            invariant
                i <= self.entries@.len(),
                forall|j: int| 0 <= j < i ==> #[trigger] self.entries@[j].owner != who,
            decreases self.entries@.len() - i,
        {
            if self.entries[i].owner == who {
                return Some(i);
            }
            i += 1;
        }
        None
    }

    /// The locked balance of `user`.
    pub fn get_locked_balance(&self, user: AccountId) -> (r: i128)
        requires
            self.wf(),
        ensures
            r == self.spec_locked_balance(user),
    {
        match self.find(user) {
            Some(i) => {
                proof {
                    lemma_balance_at(self.entries@, i as int, user);
                }
                self.entries[i].amount
            },
            None => {
                proof {
                    lemma_balance_absent(self.entries@, user);
                }
                0
            },
        }
    }

    /// The total-locked counter.
    pub fn get_total_locked(&self) -> (r: i128)
        ensures
            r == self.spec_total_locked(),
    {
        self.total_locked
    }

    /// The depositors' records, one per depositor.
    pub closed spec fn spec_entries(&self) -> Seq<LockEntry> {
        self.entries@
    }

    /// Rebuilds a vault from stored parts. Succeeds exactly when no depositor
    /// has two records, no amount is negative and `total_locked` is the sum of
    /// the amounts; the restored vault counts `total_locked` as its net
    /// deposits.
    pub fn restore(admin: Option<AccountId>, entries: Vec<LockEntry>, total_locked: i128) -> (r:
        Option<VaultContract>)
        ensures
            r is Some <==> owners_unique(entries@) && amounts_nonnegative(entries@) && sum_locked(
                entries@,
            ) == total_locked,
            r matches Some(v) ==> v.wf() && v.spec_admin() == admin && v.spec_entries()
                == entries@ && v.spec_total_locked() == total_locked && v.spec_net_deposits()
                == total_locked && forall|w: AccountId| #[trigger]
                v.spec_locked_balance(w) == balance_in(entries@, w),
    {
        if total_locked < 0 {
            proof {
                if amounts_nonnegative(entries@) {
                    lemma_bounds(entries@, AccountId { w0: 0, w1: 0, w2: 0, w3: 0 });
                }
            }
            return None;
        }
        let n = entries.len();
        let mut acc: i128 = 0;
        let mut i: usize = 0;
        while i < n
            invariant
                n == entries@.len(),
                i <= n,
                forall|a: int, b: int|
                    0 <= a < i && 0 <= b < i && a != b ==> #[trigger] entries@[a].owner
                        != #[trigger] entries@[b].owner,
                forall|j: int| 0 <= j < i ==> #[trigger] entries@[j].amount >= 0,
                0 <= acc <= total_locked,
                acc as int == sum_locked(entries@.take(i as int)),
            decreases n - i,
        {
            let e = entries[i];
            if e.amount < 0 {
                return None;
            }
            let mut k: usize = 0;
            while k < i
                invariant
                    n == entries@.len(),
                    i < n,
                    k <= i,
                    e == entries@[i as int],
                    forall|b: int| 0 <= b < k ==> #[trigger] entries@[b].owner != e.owner,
                decreases i - k,
            {
                if entries[k].owner == e.owner {
                    return None;
                }
                k += 1;
            }
            proof {
                assert(entries@.take(i as int + 1).drop_last() =~= entries@.take(i as int));
            }
            if e.amount > total_locked - acc {
                proof {
                    assert forall|j: int| 0 <= j < i + 1 implies #[trigger] entries@.take(
                        i as int + 1,
                    )[j].amount >= 0 by {}
                    if amounts_nonnegative(entries@) {
                        lemma_prefix_sum(entries@, i as int + 1);
                    }
                }
                return None;
            }
            acc = acc + e.amount;
            i += 1;
        }
        proof {
            assert(entries@.take(n as int) =~= entries@);
        }
        if acc != total_locked {
            return None;
        }
        Some(
            VaultContract {
                admin,
                entries,
                total_locked,
                deposited: Ghost(total_locked as int),
                unlocked: Ghost(0),
            },
        )
    }

    /// A copy of the depositors' records, for storage.
    pub fn entries(&self) -> (r: Vec<LockEntry>)
        ensures
            r@ == self.spec_entries(),
    {
        self.entries.clone()
    }

    /// The administrator, or `None` before `init`.
    pub fn get_admin(&self) -> (r: Option<AccountId>)
        ensures
            r == self.spec_admin(),
    {
        self.admin
    }

    /// Adds `delta` to the record of `who`, creating it when absent.
    fn credit(&mut self, who: AccountId, delta: i128)
        requires
            old(self).ledger_ok(),
            old(self).spec_locked_balance(who) + delta >= 0,
            old(self).spec_total_locked() + delta <= i128::MAX,
        ensures
            final(self).ledger_ok(),
            final(self).spec_locked_balance(who) == old(self).spec_locked_balance(who) + delta,
            forall|w: AccountId|
                w != who ==> #[trigger] final(self).spec_locked_balance(w)
                    == old(self).spec_locked_balance(w),
            final(self).spec_total_locked() == old(self).spec_total_locked() + delta,
            final(self).admin == old(self).admin,
            final(self).deposited == old(self).deposited,
            final(self).unlocked == old(self).unlocked,
    {
        proof {
            lemma_bounds(self.entries@, who);
        }
        let ghost before = self.entries@;
        match self.find(who) {
            Some(i) => {
                proof {
                    lemma_balance_at(before, i as int, who);
                }
                let e = LockEntry { owner: who, amount: self.entries[i].amount + delta };
                proof {
                    lemma_update(before, i as int, e);
                }
                self.entries.set(i, e);
                assert forall|a: int, b: int|
                    0 <= a < self.entries@.len() && 0 <= b < self.entries@.len() && a != b implies
                    #[trigger] self.entries@[a].owner != #[trigger] self.entries@[b].owner by {
                    assert(before[a].owner != before[b].owner);
                }
                assert forall|j: int| 0 <= j < self.entries@.len() implies
                    #[trigger] self.entries@[j].amount >= 0 by {
                    assert(before[j].amount >= 0);
                }
            },
            None => {
                proof {
                    lemma_balance_absent(before, who);
                }
                let e = LockEntry { owner: who, amount: delta };
                proof {
                    lemma_push(before, e);
                }
                self.entries.push(e);
                assert forall|a: int, b: int|
                    0 <= a < self.entries@.len() && 0 <= b < self.entries@.len() && a != b implies
                    #[trigger] self.entries@[a].owner != #[trigger] self.entries@[b].owner by {
                    if a < before.len() && b < before.len() {
                        assert(before[a].owner != before[b].owner);
                    } else if a < before.len() {
                        assert(before[a].owner != who);
                    } else {
                        assert(before[b].owner != who);
                    }
                }
                assert forall|j: int| 0 <= j < self.entries@.len() implies
                    #[trigger] self.entries@[j].amount >= 0 by {
                    if j < before.len() {
                        assert(before[j].amount >= 0);
                    }
                }
            },
        }
        self.total_locked = self.total_locked + delta;
    }

    /// Deposits `amount` for `from`. The caller must be `from` itself and the
    /// amount positive; `transfer_ok` says whether the host moved the amount
    /// from `from` into the vault's custody. On success the depositor's balance,
    /// the counter and the net deposits grow by `amount`, and the one lock
    /// notification is returned.
    pub fn lock(
        &mut self,
        caller: AccountId,
        from: AccountId,
        amount: i128,
        destination_hint: String,
        transfer_ok: bool,
    ) -> (r: Result<LockEvent, BridgeError>)
        requires
            old(self).wf(),
            old(self).spec_total_locked() + amount <= i128::MAX,
        ensures
            final(self).wf(),
            caller != from ==> r == Err::<LockEvent, BridgeError>(BridgeError::Unauthorized),
            caller == from && amount <= 0 ==> r == Err::<LockEvent, BridgeError>(
                BridgeError::InvalidAmount,
            ),
            caller == from && amount > 0 && !transfer_ok ==> r == Err::<LockEvent, BridgeError>(
                BridgeError::TransferFailed,
            ),
            r is Err ==> *final(self) == *old(self),
            caller == from && amount > 0 && transfer_ok ==> r == Ok::<LockEvent, BridgeError>(
                LockEvent { depositor: from, destination_hint, amount },
            ) && final(self).moved_by(old(self), from, amount as int),
    {
        if caller != from {
            return Err(BridgeError::Unauthorized);
        }
        if amount <= 0 {
            return Err(BridgeError::InvalidAmount);
        }
        if !transfer_ok {
            return Err(BridgeError::TransferFailed);
        }
        proof {
            lemma_bounds(self.entries@, from);
        }
        self.deposited = Ghost(self.deposited@ + amount);
        self.credit(from, amount);
        Ok(LockEvent { depositor: from, destination_hint, amount })
    }

    /// Returns `amount` of `to`'s collateral to `to`. Only the administrator
    /// may call it; the amount must be positive and at most `to`'s locked
    /// balance; `transfer_ok` says whether the host moved the amount out of the
    /// vault's custody. On success the balance, the counter and the net
    /// deposits shrink by `amount`.
    pub fn unlock(&mut self, caller: AccountId, to: AccountId, amount: i128, transfer_ok: bool) -> (r:
        Result<UnlockEvent, BridgeError>)
        requires
            old(self).wf(),
        ensures
            final(self).wf(),
            old(self).spec_admin() != Some(caller) ==> r == Err::<UnlockEvent, BridgeError>(
                BridgeError::Unauthorized,
            ),
            old(self).spec_admin() == Some(caller) && amount <= 0 ==> r == Err::<
                UnlockEvent,
                BridgeError,
            >(BridgeError::InvalidAmount),
            old(self).spec_admin() == Some(caller) && amount > 0 && amount
                > old(self).spec_locked_balance(to) ==> r == Err::<UnlockEvent, BridgeError>(
                BridgeError::InsufficientLockedBalance,
            ),
            old(self).spec_admin() == Some(caller) && 0 < amount <= old(self).spec_locked_balance(to)
                && !transfer_ok ==> r == Err::<UnlockEvent, BridgeError>(
                BridgeError::TransferFailed,
            ),
            r is Err ==> *final(self) == *old(self),
            old(self).spec_admin() == Some(caller) && 0 < amount <= old(self).spec_locked_balance(to)
                && transfer_ok ==> r == Ok::<UnlockEvent, BridgeError>(UnlockEvent { to, amount })
                && final(self).moved_by(old(self), to, -amount),
    {
        if !self.is_admin(caller) {
            return Err(BridgeError::Unauthorized);
        }
        if amount <= 0 {
            return Err(BridgeError::InvalidAmount);
        }
        let current = self.get_locked_balance(to);
        if current < amount {
            return Err(BridgeError::InsufficientLockedBalance);
        }
        if !transfer_ok {
            return Err(BridgeError::TransferFailed);
        }
        self.unlocked = Ghost(self.unlocked@ + amount);
        self.credit(to, -amount);
        Ok(UnlockEvent { to, amount })
    }

    /// Pays `amount` out of the vault's custody to `to` without touching the
    /// locked-balance ledger. Only the administrator may call it, the amount
    /// must be positive, and `transfer_ok` says whether the host moved it.
    pub fn release(&self, caller: AccountId, to: AccountId, amount: i128, transfer_ok: bool) -> (r:
        Result<ReleaseEvent, BridgeError>)
        ensures
            self.spec_admin() != Some(caller) ==> r == Err::<ReleaseEvent, BridgeError>(
                BridgeError::Unauthorized,
            ),
            self.spec_admin() == Some(caller) && amount <= 0 ==> r == Err::<
                ReleaseEvent,
                BridgeError,
            >(BridgeError::InvalidAmount),
            self.spec_admin() == Some(caller) && amount > 0 && !transfer_ok ==> r == Err::<
                ReleaseEvent,
                BridgeError,
            >(BridgeError::TransferFailed),
            self.spec_admin() == Some(caller) && amount > 0 && transfer_ok ==> r == Ok::<
                ReleaseEvent,
                BridgeError,
            >(ReleaseEvent { to, amount }),
    {
        if !self.is_admin(caller) {
            return Err(BridgeError::Unauthorized);
        }
        if amount <= 0 {
            return Err(BridgeError::InvalidAmount);
        }
        if !transfer_ok {
            return Err(BridgeError::TransferFailed);
        }
        Ok(ReleaseEvent { to, amount })
    }

    /// Replaces the administrator; only the current administrator may.
    pub fn set_admin(&mut self, caller: AccountId, new_admin: AccountId) -> (r: Result<
        (),
        BridgeError,
    >)
        requires
            old(self).wf(),
        ensures
            final(self).wf(),
            old(self).spec_admin() != Some(caller) ==> r == Err::<(), BridgeError>(
                BridgeError::Unauthorized,
            ) && *final(self) == *old(self),
            old(self).spec_admin() == Some(caller) ==> r is Ok && final(self).spec_admin() == Some(
                new_admin,
            ) && final(self).same_books(old(self)),
    {
        if !self.is_admin(caller) {
            return Err(BridgeError::Unauthorized);
        }
        self.admin = Some(new_admin);
        Ok(())
    }
}

/// Balance conservation: in every state that the vault's operations reach,
/// the total-locked counter equals the sum of all depositors' locked balances,
/// and both equal the amounts ever deposited minus the amounts ever unlocked.
/// No locked balance is ever negative.
pub proof fn lemma_balance_conservation(v: &VaultContract, who: AccountId)
    requires
        v.wf(),
    ensures
        v.spec_total_locked() == v.spec_sum_of_balances(),
        v.spec_total_locked() == v.spec_net_deposits(),
        0 <= v.spec_locked_balance(who) <= v.spec_total_locked(),
{
    lemma_bounds(v.entries@, who);
}

} // verus!
