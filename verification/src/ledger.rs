use vstd::prelude::*;

use crate::constants::CANONICAL_BUMP;
use crate::constants::MIN_VAULT_INIT_LAMPORTS;
use crate::contexts::Cancel;
use crate::contexts::Claim;
use crate::contexts::InitializeVault;
use crate::errors::LockPayError;
use crate::errors::TxError;
use crate::instructions;
use crate::pubkey::Pubkey;
use crate::pubkey::system_program_id;
use crate::state::Vault;

verus! {

/// One balance-holding account: an address and the lamports it holds.
#[derive(Clone, Copy, Debug, PartialEq, Eq, Structural)]
pub struct AccountEntry {
    pub key: Pubkey,
    pub lamports: u64,
}

/// The slice of chain state the escrow program touches: every party's
/// balance, the live vault records — stored by their (sender, receiver)
/// pair, which is what deterministic address derivation enforces — and the
/// custodian authority's balance and recorded owner. Each operation runs
/// atomically against one `Ledger`.
pub struct Ledger {
    pub accounts: Vec<AccountEntry>,
    pub vaults: Vec<Vault>,
    pub vault_authority_lamports: u64,
    pub vault_authority_owner: Pubkey,
}

/// Total lamports held across a sequence of accounts.
pub open spec fn sum_lamports(s: Seq<AccountEntry>) -> int
    decreases s.len(),
{
    if s.len() == 0 {
        0
    } else {
        s[0].lamports + sum_lamports(s.drop_first())
    }
}

/// Lamports held under one key across a sequence of accounts. With unique
/// keys this is the key's balance; a key that is absent holds zero.
pub open spec fn key_lamports(s: Seq<AccountEntry>, k: Pubkey) -> int
    decreases s.len(),
{
    if s.len() == 0 {
        0
    } else {
        (if s[0].key == k {
            s[0].lamports as int
        } else {
            0
        }) + key_lamports(s.drop_first(), k)
    }
}

/// Total locked value across a sequence of vault records.
pub open spec fn sum_amounts(s: Seq<Vault>) -> int
    decreases s.len(),
{
    if s.len() == 0 {
        0
    } else {
        s[0].amount + sum_amounts(s.drop_first())
    }
}

/// The record stored for a (sender, receiver) pair: the first match, which
/// under unique pairs is the only one.
pub open spec fn seq_vault(s: Seq<Vault>, sender: Pubkey, receiver: Pubkey) -> Option<Vault>
    decreases s.len(),
{
    if s.len() == 0 {
        None
    } else if s[0].sender == sender && s[0].receiver == receiver {
        Some(s[0])
    } else {
        seq_vault(s.drop_first(), sender, receiver)
    }
}

/// No two accounts share an address.
pub open spec fn unique_keys(s: Seq<AccountEntry>) -> bool {
    forall|i: int, j: int| 0 <= i < j < s.len() ==> s[i].key != s[j].key
}

/// At most one live record per (sender, receiver) pair — the structural
/// guarantee of deterministic addressing.
pub open spec fn unique_pairs(s: Seq<Vault>) -> bool {
    forall|i: int, j: int|
        0 <= i < j < s.len() ==> !(s[i].sender == s[j].sender && s[i].receiver == s[j].receiver)
}

pub proof fn lemma_sum_lamports_nonneg(s: Seq<AccountEntry>)
    ensures
        0 <= sum_lamports(s),
    decreases s.len(),
{
    if s.len() > 0 {
        lemma_sum_lamports_nonneg(s.drop_first());
    }
}

pub proof fn lemma_key_lamports_nonneg(s: Seq<AccountEntry>, k: Pubkey)
    ensures
        0 <= key_lamports(s, k),
    decreases s.len(),
{
    if s.len() > 0 {
        lemma_key_lamports_nonneg(s.drop_first(), k);
    }
}

/// One key's balance never exceeds the total held.
pub proof fn lemma_key_lamports_le_sum(s: Seq<AccountEntry>, k: Pubkey)
    ensures
        key_lamports(s, k) <= sum_lamports(s),
    decreases s.len(),
{
    if s.len() > 0 {
        lemma_key_lamports_le_sum(s.drop_first(), k);
    }
}

/// Under unique keys, the balance of a stored key is its entry's lamports.
pub proof fn lemma_key_lamports_present(s: Seq<AccountEntry>, k: Pubkey, i: int)
    requires
        unique_keys(s),
        0 <= i < s.len(),
        s[i].key == k,
    ensures
        key_lamports(s, k) == s[i].lamports,
    decreases s.len(),
{
    if i == 0 {
        assert(forall|j: int| 0 <= j < s.drop_first().len() ==> s.drop_first()[j] == s[j + 1]);
        lemma_key_lamports_absent(s.drop_first(), k);
    } else {
        assert(forall|j: int| 0 <= j < s.drop_first().len() ==> s.drop_first()[j] == s[j + 1]);
        lemma_key_lamports_present(s.drop_first(), k, i - 1);
    }
}

/// A key with no entry holds zero.
pub proof fn lemma_key_lamports_absent(s: Seq<AccountEntry>, k: Pubkey)
    requires
        forall|j: int| 0 <= j < s.len() ==> s[j].key != k,
    ensures
        key_lamports(s, k) == 0,
    decreases s.len(),
{
    if s.len() > 0 {
        assert(forall|j: int| 0 <= j < s.drop_first().len() ==> s.drop_first()[j] == s[j + 1]);
        lemma_key_lamports_absent(s.drop_first(), k);
    }
}

/// How replacing one entry moves the total.
pub proof fn lemma_sum_lamports_update(s: Seq<AccountEntry>, i: int, e: AccountEntry)
    requires
        0 <= i < s.len(),
    ensures
        sum_lamports(s.update(i, e)) == sum_lamports(s) - s[i].lamports + e.lamports,
    decreases s.len(),
{
    if i == 0 {
        assert(s.update(0, e).drop_first() =~= s.drop_first());
    } else {
        assert(s.update(i, e).drop_first() =~= s.drop_first().update(i - 1, e));
        lemma_sum_lamports_update(s.drop_first(), i - 1, e);
    }
}

/// How replacing one entry moves each key's balance.
pub proof fn lemma_key_lamports_update(s: Seq<AccountEntry>, i: int, e: AccountEntry, k: Pubkey)
    requires
        0 <= i < s.len(),
    ensures
        key_lamports(s.update(i, e), k) == key_lamports(s, k) + (if e.key == k {
            e.lamports as int
        } else {
            0
        }) - (if s[i].key == k {
            s[i].lamports as int
        } else {
            0
        }),
    decreases s.len(),
{
    if i == 0 {
        assert(s.update(0, e).drop_first() =~= s.drop_first());
    } else {
        assert(s.update(i, e).drop_first() =~= s.drop_first().update(i - 1, e));
        lemma_key_lamports_update(s.drop_first(), i - 1, e, k);
    }
}

pub proof fn lemma_sum_lamports_push(s: Seq<AccountEntry>, e: AccountEntry)
    ensures
        sum_lamports(s.push(e)) == sum_lamports(s) + e.lamports,
    decreases s.len(),
{
    if s.len() == 0 {
        assert(s.push(e)[0] == e);
        assert(s.push(e).drop_first() =~= Seq::<AccountEntry>::empty());
        assert(sum_lamports(Seq::<AccountEntry>::empty()) == 0);
    } else {
        assert(s.push(e)[0] == s[0]);
        assert(s.push(e).drop_first() =~= s.drop_first().push(e));
        lemma_sum_lamports_push(s.drop_first(), e);
    }
}

pub proof fn lemma_key_lamports_push(s: Seq<AccountEntry>, e: AccountEntry, k: Pubkey)
    ensures
        key_lamports(s.push(e), k) == key_lamports(s, k) + (if e.key == k {
            e.lamports as int
        } else {
            0
        }),
    decreases s.len(),
{
    if s.len() == 0 {
        assert(s.push(e)[0] == e);
        assert(s.push(e).drop_first() =~= Seq::<AccountEntry>::empty());
        assert(key_lamports(Seq::<AccountEntry>::empty(), k) == 0);
    } else {
        assert(s.push(e)[0] == s[0]);
        assert(s.push(e).drop_first() =~= s.drop_first().push(e));
        lemma_key_lamports_push(s.drop_first(), e, k);
    }
}

pub proof fn lemma_sum_amounts_nonneg(s: Seq<Vault>)
    ensures
        0 <= sum_amounts(s),
    decreases s.len(),
{
    if s.len() > 0 {
        lemma_sum_amounts_nonneg(s.drop_first());
    }
}

/// One record's locked value never exceeds the total locked.
pub proof fn lemma_amount_le_sum(s: Seq<Vault>, i: int)
    requires
        0 <= i < s.len(),
    ensures
        s[i].amount <= sum_amounts(s),
    decreases s.len(),
{
    if i == 0 {
        lemma_sum_amounts_nonneg(s.drop_first());
    } else {
        assert(forall|j: int| 0 <= j < s.drop_first().len() ==> s.drop_first()[j] == s[j + 1]);
        lemma_amount_le_sum(s.drop_first(), i - 1);
    }
}

pub proof fn lemma_sum_amounts_push(s: Seq<Vault>, v: Vault)
    ensures
        sum_amounts(s.push(v)) == sum_amounts(s) + v.amount,
    decreases s.len(),
{
    if s.len() == 0 {
        assert(s.push(v)[0] == v);
        assert(s.push(v).drop_first() =~= Seq::<Vault>::empty());
        assert(sum_amounts(Seq::<Vault>::empty()) == 0);
    } else {
        assert(s.push(v)[0] == s[0]);
        assert(s.push(v).drop_first() =~= s.drop_first().push(v));
        lemma_sum_amounts_push(s.drop_first(), v);
    }
}

pub proof fn lemma_sum_amounts_remove(s: Seq<Vault>, i: int)
    requires
        0 <= i < s.len(),
    ensures
        sum_amounts(s.remove(i)) == sum_amounts(s) - s[i].amount,
    decreases s.len(),
{
    if i == 0 {
        assert(s.remove(0) =~= s.drop_first());
    } else {
        assert(s.remove(i).drop_first() =~= s.drop_first().remove(i - 1));
        lemma_sum_amounts_remove(s.drop_first(), i - 1);
    }
}

/// Under unique pairs, the record stored at an index is what lookup of its
/// pair returns.
pub proof fn lemma_seq_vault_present(s: Seq<Vault>, sender: Pubkey, receiver: Pubkey, i: int)
    requires
        unique_pairs(s),
        0 <= i < s.len(),
        s[i].sender == sender,
        s[i].receiver == receiver,
    ensures
        seq_vault(s, sender, receiver) == Some(s[i]),
    decreases s.len(),
{
    if i == 0 {
    } else {
        assert(forall|j: int| 0 <= j < s.drop_first().len() ==> s.drop_first()[j] == s[j + 1]);
        lemma_seq_vault_present(s.drop_first(), sender, receiver, i - 1);
    }
}

/// A pair with no record looks up to nothing.
pub proof fn lemma_seq_vault_absent(s: Seq<Vault>, sender: Pubkey, receiver: Pubkey)
    requires
        forall|j: int|
            0 <= j < s.len() ==> !(s[j].sender == sender && s[j].receiver == receiver),
    ensures
        seq_vault(s, sender, receiver) is None,
    decreases s.len(),
{
    if s.len() > 0 {
        assert(forall|j: int| 0 <= j < s.drop_first().len() ==> s.drop_first()[j] == s[j + 1]);
        lemma_seq_vault_absent(s.drop_first(), sender, receiver);
    }
}

/// A stored record names exactly the pair it is stored under.
pub proof fn lemma_seq_vault_fields(s: Seq<Vault>, sender: Pubkey, receiver: Pubkey)
    ensures
        match seq_vault(s, sender, receiver) {
            Some(v) => v.sender == sender && v.receiver == receiver,
            None => true,
        },
    decreases s.len(),
{
    if s.len() > 0 && !(s[0].sender == sender && s[0].receiver == receiver) {
        lemma_seq_vault_fields(s.drop_first(), sender, receiver);
    }
}

/// Appending a record changes no other pair's lookup.
pub proof fn lemma_seq_vault_push(s: Seq<Vault>, v: Vault, sender: Pubkey, receiver: Pubkey)
    ensures
        seq_vault(s.push(v), sender, receiver) == (if seq_vault(s, sender, receiver) is Some {
            seq_vault(s, sender, receiver)
        } else if v.sender == sender && v.receiver == receiver {
            Some(v)
        } else {
            None
        }),
    decreases s.len(),
{
    if s.len() == 0 {
        assert(s.push(v)[0] == v);
        assert(s.push(v).drop_first() =~= Seq::<Vault>::empty());
        assert(seq_vault(Seq::<Vault>::empty(), sender, receiver) is None);
    } else {
        assert(s.push(v)[0] == s[0]);
        assert(s.push(v).drop_first() =~= s.drop_first().push(v));
        lemma_seq_vault_push(s.drop_first(), v, sender, receiver);
    }
}

/// Removing a record leaves every other pair's lookup as it was.
pub proof fn lemma_seq_vault_remove(s: Seq<Vault>, i: int, sender: Pubkey, receiver: Pubkey)
    requires
        0 <= i < s.len(),
        !(s[i].sender == sender && s[i].receiver == receiver),
    ensures
        seq_vault(s.remove(i), sender, receiver) == seq_vault(s, sender, receiver),
    decreases s.len(),
{
    if i == 0 {
        assert(s.remove(0) =~= s.drop_first());
    } else {
        assert(s.remove(i).drop_first() =~= s.drop_first().remove(i - 1));
        lemma_seq_vault_remove(s.drop_first(), i - 1, sender, receiver);
    }
}

impl Ledger {
    /// The balance a party holds.
    pub open spec fn spec_balance(self, k: Pubkey) -> int {
        key_lamports(self.accounts@, k)
    }

    /// The live record for a (sender, receiver) pair, if one exists.
    pub open spec fn spec_vault(self, sender: Pubkey, receiver: Pubkey) -> Option<Vault> {
        seq_vault(self.vaults@, sender, receiver)
    }

    /// Whether a live record exists for the pair.
    pub open spec fn has_vault(self, sender: Pubkey, receiver: Pubkey) -> bool {
        self.spec_vault(sender, receiver) is Some
    }

    /// Well-formedness of the whole state: addresses are unique, at most
    /// one live record per pair, every stored record is unclaimed and above
    /// the floor, the custodian holds exactly the total locked value, and
    /// the lamports in circulation fit in a balance word — the supply cap
    /// that keeps every transfer's credit side representable.
    pub open spec fn wf(self) -> bool {
        &&& unique_keys(self.accounts@)
        &&& unique_pairs(self.vaults@)
        &&& (forall|i: int| 0 <= i < self.vaults@.len() ==> (#[trigger] self.vaults@[i]).live_ok())
        &&& sum_amounts(self.vaults@) == self.vault_authority_lamports as int
        &&& sum_lamports(self.accounts@) + self.vault_authority_lamports <= u64::MAX
    }
}

/// Nothing observable moved between two states.
pub open spec fn ledger_unchanged(pre: Ledger, post: Ledger) -> bool {
    &&& post.accounts@ == pre.accounts@
    &&& post.vaults@ == pre.vaults@
    &&& post.vault_authority_lamports == pre.vault_authority_lamports
    &&& post.vault_authority_owner == pre.vault_authority_owner
}

/// Every balance but one party's is untouched.
pub open spec fn balances_frame(pre: Ledger, post: Ledger, k: Pubkey) -> bool {
    forall|q: Pubkey|
        q != k ==> #[trigger] key_lamports(post.accounts@, q) == key_lamports(pre.accounts@, q)
}

/// Every record but one pair's is untouched.
pub open spec fn vaults_frame(pre: Ledger, post: Ledger, sender: Pubkey, receiver: Pubkey) -> bool {
    forall|a: Pubkey, b: Pubkey|
        !(a == sender && b == receiver) ==> #[trigger] seq_vault(post.vaults@, a, b) == seq_vault(
            pre.vaults@,
            a,
            b,
        )
}

/// What one initialize submission does, case by case: the runtime resolves
/// accounts first, so an allocation conflict on the derived address comes
/// before the program's own checks; each failure leaves the state exactly
/// as it was, and success moves the amount into custody and stores the
/// record, touching nothing else.
pub open spec fn initialize_transition(
    pre: Ledger,
    post: Ledger,
    sender: Pubkey,
    receiver_account: Pubkey,
    receiver: Pubkey,
    amount: u64,
    r: Result<(), TxError>,
) -> bool {
    if pre.has_vault(sender, receiver_account) {
        r == Err::<(), TxError>(TxError::AccountInUse) && ledger_unchanged(pre, post)
    } else if receiver_account != receiver {
        r == Err::<(), TxError>(TxError::Program(LockPayError::ReceiverMismatch))
            && ledger_unchanged(pre, post)
    } else if amount < MIN_VAULT_INIT_LAMPORTS {
        r == Err::<(), TxError>(TxError::Program(LockPayError::AmountBelowMinimum))
            && ledger_unchanged(pre, post)
    } else if pre.spec_balance(sender) < amount {
        r == Err::<(), TxError>(TxError::InsufficientFunds) && ledger_unchanged(pre, post)
    } else {
        &&& r == Ok::<(), TxError>(())
        &&& post.spec_vault(sender, receiver) == Some(
            (Vault { sender, receiver, amount, claimed: false, bump: CANONICAL_BUMP }),
        )
        &&& vaults_frame(pre, post, sender, receiver)
        &&& post.spec_balance(sender) == pre.spec_balance(sender) - amount
        &&& balances_frame(pre, post, sender)
        &&& post.vault_authority_lamports == pre.vault_authority_lamports + amount
        &&& post.vault_authority_owner == pre.vault_authority_owner
    }
}

/// What one claim submission does. A settled record is destroyed in the
/// same atomic step that settles it, so a second attempt finds no record —
/// `AlreadyClaimed` lives at the handler level, where a record is still in
/// hand. Success pays the record's full amount out of custody to the
/// recorded receiver and retires the record, touching nothing else.
pub open spec fn claim_transition(
    pre: Ledger,
    post: Ledger,
    caller: Pubkey,
    sender: Pubkey,
    receiver: Pubkey,
    r: Result<(), TxError>,
) -> bool {
    match pre.spec_vault(sender, receiver) {
        None => r == Err::<(), TxError>(TxError::AccountNotFound) && ledger_unchanged(pre, post),
        Some(v) => {
            if pre.vault_authority_owner != system_program_id() {
                r == Err::<(), TxError>(TxError::Program(LockPayError::InvalidState))
                    && ledger_unchanged(pre, post)
            } else if caller != v.receiver {
                r == Err::<(), TxError>(TxError::Program(LockPayError::Unauthorized))
                    && ledger_unchanged(pre, post)
            } else {
                &&& r == Ok::<(), TxError>(())
                &&& post.spec_vault(sender, receiver) is None
                &&& vaults_frame(pre, post, sender, receiver)
                &&& post.spec_balance(caller) == pre.spec_balance(caller) + v.amount
                &&& balances_frame(pre, post, caller)
                &&& post.vault_authority_lamports == pre.vault_authority_lamports - v.amount
                &&& post.vault_authority_owner == pre.vault_authority_owner
            }
        },
    }
}

/// What one cancel submission does: symmetric to a claim, with the
/// recorded sender as the only authorized caller and the funds returning
/// to the sender.
pub open spec fn cancel_transition(
    pre: Ledger,
    post: Ledger,
    caller: Pubkey,
    sender: Pubkey,
    receiver: Pubkey,
    r: Result<(), TxError>,
) -> bool {
    match pre.spec_vault(sender, receiver) {
        None => r == Err::<(), TxError>(TxError::AccountNotFound) && ledger_unchanged(pre, post),
        Some(v) => {
            if pre.vault_authority_owner != system_program_id() {
                r == Err::<(), TxError>(TxError::Program(LockPayError::InvalidState))
                    && ledger_unchanged(pre, post)
            } else if caller != v.sender {
                r == Err::<(), TxError>(TxError::Program(LockPayError::Unauthorized))
                    && ledger_unchanged(pre, post)
            } else {
                &&& r == Ok::<(), TxError>(())
                &&& post.spec_vault(sender, receiver) is None
                &&& vaults_frame(pre, post, sender, receiver)
                &&& post.spec_balance(caller) == pre.spec_balance(caller) + v.amount
                &&& balances_frame(pre, post, caller)
                &&& post.vault_authority_lamports == pre.vault_authority_lamports - v.amount
                &&& post.vault_authority_owner == pre.vault_authority_owner
            }
        },
    }
}

impl Ledger {
    /// An empty chain: no accounts, no records, an empty custodian owned by
    /// the system program.
    pub fn new() -> (r: Ledger)
        ensures
            r.wf(),
            r.accounts@.len() == 0,
            r.vaults@.len() == 0,
            r.vault_authority_lamports == 0,
            r.vault_authority_owner == system_program_id(),
    {
        let l = Ledger {
            accounts: Vec::new(),
            vaults: Vec::new(),
            vault_authority_lamports: 0,
            vault_authority_owner: system_program_id(),
        };
        proof {
            assert(sum_lamports(l.accounts@) == 0);
            assert(sum_amounts(l.vaults@) == 0);
        }
        l
    }

    fn find_account(&self, k: Pubkey) -> (r: Option<usize>)
        ensures
            match r {
                Some(i) => i < self.accounts@.len() && self.accounts@[i as int].key == k,
                None => forall|j: int| 0 <= j < self.accounts@.len() ==> self.accounts@[j].key != k,
            },
    {
        let mut i: usize = 0;
        while i < self.accounts.len()
            invariant
                i <= self.accounts@.len(),
                forall|j: int| 0 <= j < i ==> self.accounts@[j].key != k,
            decreases self.accounts@.len() - i,
        {
            if self.accounts[i].key == k {
                return Some(i);
            }
            i = i + 1;
        }
        None
    }

    fn find_vault(&self, sender: Pubkey, receiver: Pubkey) -> (r: Option<usize>)
        ensures
            match r {
                Some(i) => i < self.vaults@.len() && self.vaults@[i as int].sender == sender
                    && self.vaults@[i as int].receiver == receiver,
                None => forall|j: int|
                    0 <= j < self.vaults@.len() ==> !(self.vaults@[j].sender == sender
                        && self.vaults@[j].receiver == receiver),
            },
    {
        let mut i: usize = 0;
        while i < self.vaults.len()
            invariant
                i <= self.vaults@.len(),
                forall|j: int|
                    0 <= j < i ==> !(self.vaults@[j].sender == sender && self.vaults@[j].receiver
                        == receiver),
            decreases self.vaults@.len() - i,
        {
            if self.vaults[i].sender == sender && self.vaults[i].receiver == receiver {
                return Some(i);
            }
            i = i + 1;
        }
        None
    }

    /// The balance a party holds; a party with no account holds zero.
    pub fn balance_of(&self, k: Pubkey) -> (r: u64)
        requires
            self.wf(),
        ensures
            r as int == self.spec_balance(k),
    {
        match self.find_account(k) {
            Some(i) => {
                proof {
                    lemma_key_lamports_present(self.accounts@, k, i as int);
                }
                self.accounts[i].lamports
            },
            None => {
                proof {
                    lemma_key_lamports_absent(self.accounts@, k);
                }
                0
            },
        }
    }

    /// The live record for a pair, as stored.
    pub fn get_vault(&self, sender: Pubkey, receiver: Pubkey) -> (r: Option<Vault>)
        requires
            self.wf(),
        ensures
            r == self.spec_vault(sender, receiver),
    {
        match self.find_vault(sender, receiver) {
            Some(i) => {
                proof {
                    lemma_seq_vault_present(self.vaults@, sender, receiver, i as int);
                }
                Some(self.vaults[i])
            },
            None => {
                proof {
                    lemma_seq_vault_absent(self.vaults@, sender, receiver);
                }
                None
            },
        }
    }

    /// Writes one party's balance, updating its entry or creating one.
    /// Touches only the account store.
    fn store_balance(&mut self, k: Pubkey, new_balance: u64)
        requires
            unique_keys(old(self).accounts@),
        ensures
            unique_keys(final(self).accounts@),
            final(self).spec_balance(k) == new_balance,
            balances_frame(*old(self), *final(self), k),
            sum_lamports(final(self).accounts@) == sum_lamports(old(self).accounts@) - old(
                self,
            ).spec_balance(k) + new_balance,
            final(self).vaults@ == old(self).vaults@,
            final(self).vault_authority_lamports == old(self).vault_authority_lamports,
            final(self).vault_authority_owner == old(self).vault_authority_owner,
    {
        let e = AccountEntry { key: k, lamports: new_balance };
        match self.find_account(k) {
            Some(i) => {
                proof {
                    lemma_key_lamports_present(self.accounts@, k, i as int);
                    lemma_sum_lamports_update(self.accounts@, i as int, e);
                    lemma_key_lamports_update(self.accounts@, i as int, e, k);
                }
                self.accounts[i] = e;
                proof {
                    assert forall|x: int, y: int|
                        0 <= x < y < self.accounts@.len() implies self.accounts@[x].key
                        != self.accounts@[y].key by {
                        assert(old(self).accounts@[x].key != old(self).accounts@[y].key);
                    }
                    assert forall|q: Pubkey| q != k implies #[trigger] key_lamports(
                        self.accounts@,
                        q,
                    ) == key_lamports(old(self).accounts@, q) by {
                        lemma_key_lamports_update(old(self).accounts@, i as int, e, q);
                    }
                }
            },
            None => {
                proof {
                    lemma_key_lamports_absent(self.accounts@, k);
                    lemma_sum_lamports_push(self.accounts@, e);
                    lemma_key_lamports_push(self.accounts@, e, k);
                }
                self.accounts.push(e);
                proof {
                    assert forall|x: int, y: int|
                        0 <= x < y < self.accounts@.len() implies self.accounts@[x].key
                        != self.accounts@[y].key by {
                        if y < self.accounts@.len() - 1 {
                            assert(old(self).accounts@[x].key != old(self).accounts@[y].key);
                        } else {
                            assert(old(self).accounts@[x].key != k);
                        }
                    }
                    assert forall|q: Pubkey| q != k implies #[trigger] key_lamports(
                        self.accounts@,
                        q,
                    ) == key_lamports(old(self).accounts@, q) by {
                        lemma_key_lamports_push(old(self).accounts@, e, q);
                    }
                }
            },
        }
    }

    /// Funds a party, as the runtime's faucet does: the model's way of
    /// giving an account a starting balance. The supply cap is the one
    /// machine limit a caller owes.
    pub fn airdrop(&mut self, k: Pubkey, lamports: u64)
        requires
            old(self).wf(),
            sum_lamports(old(self).accounts@) + old(self).vault_authority_lamports + lamports
                <= u64::MAX,
        ensures
            final(self).wf(),
            final(self).spec_balance(k) == old(self).spec_balance(k) + lamports,
            balances_frame(*old(self), *final(self), k),
            final(self).vaults@ == old(self).vaults@,
            final(self).vault_authority_lamports == old(self).vault_authority_lamports,
            final(self).vault_authority_owner == old(self).vault_authority_owner,
    {
        proof {
            lemma_key_lamports_le_sum(self.accounts@, k);
            lemma_key_lamports_nonneg(self.accounts@, k);
        }
        let balance = self.balance_of(k);
        self.store_balance(k, balance + lamports);
    }
}

impl Ledger {
    /// Opens an escrow: the authenticated sender locks `amount` for a
    /// receiver. `receiver_account` is the receiver account the caller
    /// supplied; `receiver` is the receiver named in the instruction
    /// arguments — the handler insists the two agree. Allocation of the
    /// record's derived address happens first, as the runtime resolves
    /// accounts before the handler runs, so a live record for the pair
    /// fails the submission before any check of the arguments.
    pub fn initialize_vault(
        &mut self,
        sender: Pubkey,
        receiver_account: Pubkey,
        receiver: Pubkey,
        amount: u64,
    ) -> (r: Result<(), TxError>)
        requires
            old(self).wf(),
        ensures
            final(self).wf(),
            initialize_transition(
                *old(self),
                *final(self),
                sender,
                receiver_account,
                receiver,
                amount,
                r,
            ),
    {
        if let Some(i) = self.find_vault(sender, receiver_account) {
            proof {
                lemma_seq_vault_present(self.vaults@, sender, receiver_account, i as int);
            }
            return Err(TxError::AccountInUse);
        }
        proof {
            lemma_seq_vault_absent(self.vaults@, sender, receiver_account);
        }
        let sender_lamports = self.balance_of(sender);
        proof {
            lemma_key_lamports_le_sum(self.accounts@, sender);
            lemma_key_lamports_nonneg(self.accounts@, sender);
        }
        let mut ctx = InitializeVault {
            sender,
            receiver: receiver_account,
            sender_lamports,
            vault_authority_lamports: self.vault_authority_lamports,
            bump: CANONICAL_BUMP,
        };
        let res = instructions::initialize_vault::handler(&mut ctx, receiver, amount);
        match res {
            Err(e) => Err(e),
            Ok(v) => {
                self.store_balance(sender, ctx.sender_lamports);
                self.vault_authority_lamports = ctx.vault_authority_lamports;
                proof {
                    lemma_sum_amounts_push(self.vaults@, v);
                }
                self.vaults.push(v);
                proof {
                    lemma_seq_vault_push(old(self).vaults@, v, sender, receiver);
                    assert forall|a: Pubkey, b: Pubkey|
                        !(a == sender && b == receiver) implies #[trigger] seq_vault(
                        self.vaults@,
                        a,
                        b,
                    ) == seq_vault(old(self).vaults@, a, b) by {
                        lemma_seq_vault_push(old(self).vaults@, v, a, b);
                    }
                    assert forall|x: int, y: int|
                        0 <= x < y < self.vaults@.len() implies !(self.vaults@[x].sender
                        == self.vaults@[y].sender && self.vaults@[x].receiver
                        == self.vaults@[y].receiver) by {
                        if y < self.vaults@.len() - 1 {
                            assert(!(old(self).vaults@[x].sender == old(self).vaults@[y].sender
                                && old(self).vaults@[x].receiver == old(
                                self,
                            ).vaults@[y].receiver));
                        } else {
                            assert(!(old(self).vaults@[x].sender == sender && old(
                                self,
                            ).vaults@[x].receiver == receiver_account));
                        }
                    }
                    assert forall|i: int|
                        0 <= i < self.vaults@.len() implies (
                    #[trigger] self.vaults@[i]).live_ok() by {
                        if i < self.vaults@.len() - 1 {
                            assert(old(self).vaults@[i].live_ok());
                        }
                    }
                }
                Ok(())
            },
        }
    }

    /// Settles an escrow in the receiver's favour. The caller presents
    /// itself as the receiver of the record stored for (sender, receiver);
    /// the custodian constraint runs first, then the handler's own checks,
    /// and success pays the full amount out of custody and destroys the
    /// record in the same atomic step.
    pub fn claim(&mut self, caller: Pubkey, sender: Pubkey, receiver: Pubkey) -> (r: Result<
        (),
        TxError,
    >)
        requires
            old(self).wf(),
        ensures
            final(self).wf(),
            claim_transition(*old(self), *final(self), caller, sender, receiver, r),
    {
        let idx = match self.find_vault(sender, receiver) {
            None => {
                proof {
                    lemma_seq_vault_absent(self.vaults@, sender, receiver);
                }
                return Err(TxError::AccountNotFound);
            },
            Some(i) => i,
        };
        proof {
            lemma_seq_vault_present(self.vaults@, sender, receiver, idx as int);
        }
        let v = self.vaults[idx];
        let caller_lamports = self.balance_of(caller);
        let mut ctx = Claim {
            receiver: caller,
            receiver_lamports: caller_lamports,
            vault: v,
            vault_authority_lamports: self.vault_authority_lamports,
            vault_authority_owner: self.vault_authority_owner,
        };
        if let Err(e) = ctx.validate() {
            return Err(e);
        }
        proof {
            lemma_amount_le_sum(self.vaults@, idx as int);
            lemma_key_lamports_le_sum(self.accounts@, caller);
            lemma_key_lamports_nonneg(self.accounts@, caller);
            lemma_sum_lamports_nonneg(self.accounts@);
        }
        let res = instructions::claim::handler(&mut ctx);
        match res {
            Err(e) => Err(e),
            Ok(()) => {
                self.vault_authority_lamports = ctx.vault_authority_lamports;
                self.store_balance(caller, ctx.receiver_lamports);
                proof {
                    lemma_sum_amounts_remove(self.vaults@, idx as int);
                }
                self.vaults.remove(idx);
                proof {
                    assert(forall|j: int| 0 <= j < idx ==> self.vaults@[j] == old(self).vaults@[j]);
                    assert(forall|j: int|
                        idx <= j < self.vaults@.len() ==> self.vaults@[j] == old(self).vaults@[j
                            + 1]);
                    assert forall|j: int|
                        0 <= j < self.vaults@.len() implies !((#[trigger] self.vaults@[j]).sender
                        == sender && self.vaults@[j].receiver == receiver) by {
                        if j < idx {
                            assert(!(old(self).vaults@[j].sender == old(
                                self,
                            ).vaults@[idx as int].sender && old(self).vaults@[j].receiver == old(
                                self,
                            ).vaults@[idx as int].receiver));
                        } else {
                            assert(!(old(self).vaults@[idx as int].sender == old(self).vaults@[j
                                + 1].sender && old(self).vaults@[idx as int].receiver == old(
                                self,
                            ).vaults@[j + 1].receiver));
                        }
                    }
                    lemma_seq_vault_absent(self.vaults@, sender, receiver);
                    assert forall|a: Pubkey, b: Pubkey|
                        !(a == sender && b == receiver) implies #[trigger] seq_vault(
                        self.vaults@,
                        a,
                        b,
                    ) == seq_vault(old(self).vaults@, a, b) by {
                        lemma_seq_vault_remove(old(self).vaults@, idx as int, a, b);
                    }
                    assert forall|x: int, y: int|
                        0 <= x < y < self.vaults@.len() implies !(self.vaults@[x].sender
                        == self.vaults@[y].sender && self.vaults@[x].receiver
                        == self.vaults@[y].receiver) by {
                        let x0: int = if x < idx {
                            x
                        } else {
                            x + 1
                        };
                        let y0: int = if y < idx {
                            y
                        } else {
                            y + 1
                        };
                        assert(!(old(self).vaults@[x0].sender == old(self).vaults@[y0].sender
                            && old(self).vaults@[x0].receiver == old(self).vaults@[y0].receiver));
                    }
                    assert forall|i: int|
                        0 <= i < self.vaults@.len() implies (
                    #[trigger] self.vaults@[i]).live_ok() by {
                        let i0: int = if i < idx {
                            i
                        } else {
                            i + 1
                        };
                        assert(old(self).vaults@[i0].live_ok());
                    }
                }
                Ok(())
            },
        }
    }

    /// Settles an escrow in the sender's favour: the caller presents
    /// itself as the sender of the record stored for (sender, receiver),
    /// and the locked amount returns to the sender. The guards and the
    /// settlement shape are the claim's, with only the authorized party
    /// and the destination differing.
    pub fn cancel(&mut self, caller: Pubkey, sender: Pubkey, receiver: Pubkey) -> (r: Result<
        (),
        TxError,
    >)
        requires
            old(self).wf(),
        ensures
            final(self).wf(),
            cancel_transition(*old(self), *final(self), caller, sender, receiver, r),
    {
        let idx = match self.find_vault(sender, receiver) {
            None => {
                proof {
                    lemma_seq_vault_absent(self.vaults@, sender, receiver);
                }
                return Err(TxError::AccountNotFound);
            },
            Some(i) => i,
        };
        proof {
            lemma_seq_vault_present(self.vaults@, sender, receiver, idx as int);
        }
        let v = self.vaults[idx];
        let caller_lamports = self.balance_of(caller);
        let mut ctx = Cancel {
            sender: caller,
            sender_lamports: caller_lamports,
            vault: v,
            vault_authority_lamports: self.vault_authority_lamports,
            vault_authority_owner: self.vault_authority_owner,
        };
        if let Err(e) = ctx.validate() {
            return Err(e);
        }
        proof {
            lemma_amount_le_sum(self.vaults@, idx as int);
            lemma_key_lamports_le_sum(self.accounts@, caller);
            lemma_key_lamports_nonneg(self.accounts@, caller);
            lemma_sum_lamports_nonneg(self.accounts@);
        }
        let res = instructions::cancel::handler(&mut ctx);
        match res {
            Err(e) => Err(e),
            Ok(()) => {
                self.vault_authority_lamports = ctx.vault_authority_lamports;
                self.store_balance(caller, ctx.sender_lamports);
                proof {
                    lemma_sum_amounts_remove(self.vaults@, idx as int);
                }
                self.vaults.remove(idx);
                proof {
                    assert(forall|j: int| 0 <= j < idx ==> self.vaults@[j] == old(self).vaults@[j]);
                    assert(forall|j: int|
                        idx <= j < self.vaults@.len() ==> self.vaults@[j] == old(self).vaults@[j
                            + 1]);
                    assert forall|j: int|
                        0 <= j < self.vaults@.len() implies !((#[trigger] self.vaults@[j]).sender
                        == sender && self.vaults@[j].receiver == receiver) by {
                        if j < idx {
                            assert(!(old(self).vaults@[j].sender == old(
                                self,
                            ).vaults@[idx as int].sender && old(self).vaults@[j].receiver == old(
                                self,
                            ).vaults@[idx as int].receiver));
                        } else {
                            assert(!(old(self).vaults@[idx as int].sender == old(self).vaults@[j
                                + 1].sender && old(self).vaults@[idx as int].receiver == old(
                                self,
                            ).vaults@[j + 1].receiver));
                        }
                    }
                    lemma_seq_vault_absent(self.vaults@, sender, receiver);
                    assert forall|a: Pubkey, b: Pubkey|
                        !(a == sender && b == receiver) implies #[trigger] seq_vault(
                        self.vaults@,
                        a,
                        b,
                    ) == seq_vault(old(self).vaults@, a, b) by {
                        lemma_seq_vault_remove(old(self).vaults@, idx as int, a, b);
                    }
                    assert forall|x: int, y: int|
                        0 <= x < y < self.vaults@.len() implies !(self.vaults@[x].sender
                        == self.vaults@[y].sender && self.vaults@[x].receiver
                        == self.vaults@[y].receiver) by {
                        let x0: int = if x < idx {
                            x
                        } else {
                            x + 1
                        };
                        let y0: int = if y < idx {
                            y
                        } else {
                            y + 1
                        };
                        assert(!(old(self).vaults@[x0].sender == old(self).vaults@[y0].sender
                            && old(self).vaults@[x0].receiver == old(self).vaults@[y0].receiver));
                    }
                    assert forall|i: int|
                        0 <= i < self.vaults@.len() implies (
                    #[trigger] self.vaults@[i]).live_ok() by {
                        let i0: int = if i < idx {
                            i
                        } else {
                            i + 1
                        };
                        assert(old(self).vaults@[i0].live_ok());
                    }
                }
                Ok(())
            },
        }
    }
}

} // verus!
