use std::sync::Arc;
use vstd::prelude::*;

use crate::block::{Txn, TxnView};

verus! {

/// An account: its address, credit balance, nonce, and the digests of the
/// transactions that debited it, credited it, and staked from it.
pub struct Account {
    address: String,
    credits: u128,
    nonce: u128,
    sent: Vec<String>,
    received: Vec<String>,
    staked: Vec<String>,
}

pub struct AccountView {
    pub address: Seq<char>,
    pub credits: int,
    pub nonce: int,
    pub sent: Seq<Seq<char>>,
    pub received: Seq<Seq<char>>,
    pub staked: Seq<Seq<char>>,
}

pub open spec fn digests_view(v: Seq<String>) -> Seq<Seq<char>> {
    v.map_values(|s: String| s@)
}

impl View for Account {
    type V = AccountView;

    closed spec fn view(&self) -> AccountView {
        AccountView {
            address: self.address@,
            credits: self.credits as int,
            nonce: self.nonce as int,
            sent: digests_view(self.sent@),
            received: digests_view(self.received@),
            staked: digests_view(self.staked@),
        }
    }
}

pub open spec fn account_views(v: Seq<Account>) -> Seq<AccountView> {
    v.map_values(|a: Account| a@)
}

fn clone_digests(v: &Vec<String>) -> (r: Vec<String>)
    ensures
        digests_view(r@) == digests_view(v@),
{
    let r = v.clone();
    assert(digests_view(r@) =~= digests_view(v@));
    r
}

impl Account {
    /// A fresh account with a balance, nonce 0 and empty digest logs.
    pub fn new(address: String, credits: u128) -> (r: Account)
        ensures
            r@ == (AccountView {
                address: address@,
                credits: credits as int,
                nonce: 0,
                sent: seq![],
                received: seq![],
                staked: seq![],
            }),
    {
        let r = Account {
            address,
            credits,
            nonce: 0,
            sent: Vec::new(),
            received: Vec::new(),
            staked: Vec::new(),
        };
        assert(r@.sent =~= seq![]);
        assert(r@.received =~= seq![]);
        assert(r@.staked =~= seq![]);
        r
    }

    pub fn duplicate(&self) -> (r: Account)
        ensures
            r@ == self@,
    {
        Account {
            address: self.address.clone(),
            credits: self.credits,
            nonce: self.nonce,
            sent: clone_digests(&self.sent),
            received: clone_digests(&self.received),
            staked: clone_digests(&self.staked),
        }
    }

    pub fn address(&self) -> (r: &String)
        ensures
            r@ == self@.address,
    {
        &self.address
    }

    pub fn credits(&self) -> (r: u128)
        ensures
            r as int == self@.credits,
    {
        self.credits
    }

    pub fn nonce(&self) -> (r: u128)
        ensures
            r as int == self@.nonce,
    {
        self.nonce
    }

    pub fn sent(&self) -> (r: &Vec<String>)
        ensures
            digests_view(r@) == self@.sent,
    {
        &self.sent
    }

    pub fn received(&self) -> (r: &Vec<String>)
        ensures
            digests_view(r@) == self@.received,
    {
        &self.received
    }

    pub fn staked(&self) -> (r: &Vec<String>)
        ensures
            digests_view(r@) == self@.staked,
    {
        &self.staked
    }
}

/// Why a transaction was not applied.
#[derive(Clone, Copy, Debug, PartialEq, Eq, Structural)]
pub enum Rejection {
    UnknownSender,
    UnknownReceiver,
    InsufficientCredits,
    /// The nonce is not above the sender's current nonce.
    StaleNonce,
    CreditOverflow,
}

/// Addresses are unique.
pub open spec fn distinct_addresses(accts: Seq<AccountView>) -> bool {
    forall|i: int, j: int|
        0 <= i < accts.len() && 0 <= j < accts.len() && i != j ==> #[trigger] accts[i].address
            != #[trigger] accts[j].address
}

/// The position of the account with this address, or -1.
pub open spec fn account_position(accts: Seq<AccountView>, addr: Seq<char>) -> int {
    if exists|i: int| 0 <= i < accts.len() && #[trigger] accts[i].address == addr {
        choose|i: int| 0 <= i < accts.len() && #[trigger] accts[i].address == addr
    } else {
        -1
    }
}

/// Why `t` is rejected against `accts`, or `None` when it is applied.
pub open spec fn rejection_of(accts: Seq<AccountView>, t: TxnView) -> Option<Rejection> {
    let s = account_position(accts, t.sender);
    let r = account_position(accts, t.receiver);
    if s < 0 {
        Some(Rejection::UnknownSender)
    } else if r < 0 {
        Some(Rejection::UnknownReceiver)
    } else if accts[s].credits < t.amount {
        Some(Rejection::InsufficientCredits)
    } else if t.nonce <= accts[s].nonce {
        Some(Rejection::StaleNonce)
    } else if s != r && accts[r].credits + t.amount > u128::MAX {
        Some(Rejection::CreditOverflow)
    } else {
        None
    }
}

pub open spec fn debited(a: AccountView, t: TxnView) -> AccountView {
    AccountView {
        credits: a.credits - t.amount,
        nonce: t.nonce,
        sent: a.sent.push(t.digest),
        ..a
    }
}

pub open spec fn credited(a: AccountView, t: TxnView) -> AccountView {
    AccountView { credits: a.credits + t.amount, received: a.received.push(t.digest), ..a }
}

/// The accounts after `t` is applied: the sender is debited, then the
/// receiver credited.
pub open spec fn transferred(accts: Seq<AccountView>, t: TxnView) -> Seq<AccountView> {
    let s = account_position(accts, t.sender);
    let r = account_position(accts, t.receiver);
    let after_debit = accts.update(s, debited(accts[s], t));
    after_debit.update(r, credited(after_debit[r], t))
}

pub open spec fn apply_txn(accts: Seq<AccountView>, t: TxnView) -> Seq<AccountView> {
    if rejection_of(accts, t) is None {
        transferred(accts, t)
    } else {
        accts
    }
}

/// The accounts after each transaction of `txs` is applied or rejected, in order.
pub open spec fn apply_txns(accts: Seq<AccountView>, txs: Seq<TxnView>) -> Seq<AccountView>
    decreases txs.len(),
{
    if txs.len() == 0 {
        accts
    } else {
        apply_txn(apply_txns(accts, txs.drop_last()), txs.last())
    }
}

/// The verdict on each transaction of `txs` when they are applied in order.
pub open spec fn verdicts(accts: Seq<AccountView>, txs: Seq<TxnView>) -> Seq<Option<Rejection>>
    decreases txs.len(),
{
    if txs.len() == 0 {
        seq![]
    } else {
        verdicts(accts, txs.drop_last()).push(
            rejection_of(apply_txns(accts, txs.drop_last()), txs.last()),
        )
    }
}

pub open spec fn total_credits(accts: Seq<AccountView>) -> int
    decreases accts.len(),
{
    if accts.len() == 0 {
        0
    } else {
        total_credits(accts.drop_last()) + accts.last().credits
    }
}

proof fn lemma_total_update(accts: Seq<AccountView>, i: int, a: AccountView)
    requires
        0 <= i < accts.len(),
    ensures
        total_credits(accts.update(i, a)) == total_credits(accts) - accts[i].credits + a.credits,
    decreases accts.len(),
{
    let u = accts.update(i, a);
    if i == accts.len() - 1 {
        assert(u.drop_last() =~= accts.drop_last());
    } else {
        lemma_total_update(accts.drop_last(), i, a);
        assert(u.drop_last() =~= accts.drop_last().update(i, a));
    }
}

proof fn lemma_position_of(accts: Seq<AccountView>, addr: Seq<char>, i: int)
    requires
        distinct_addresses(accts),
        0 <= i < accts.len(),
        accts[i].address == addr,
    ensures
        account_position(accts, addr) == i,
{
}

proof fn lemma_apply_keeps_addresses(accts: Seq<AccountView>, t: TxnView)
    ensures
        apply_txn(accts, t).len() == accts.len(),
        forall|i: int| 0 <= i < accts.len() ==> #[trigger] apply_txn(accts, t)[i].address == accts[i].address,
{
}

/// Applying a transaction moves credits between accounts and creates none:
/// the total is the same before and after, and a rejected transaction
/// changes no account at all.
pub proof fn lemma_conservation(accts: Seq<AccountView>, t: TxnView)
    requires
        distinct_addresses(accts),
    ensures
        total_credits(apply_txn(accts, t)) == total_credits(accts),
        rejection_of(accts, t) is Some ==> apply_txn(accts, t) == accts,
        distinct_addresses(apply_txn(accts, t)),
{
    lemma_apply_keeps_addresses(accts, t);
    if rejection_of(accts, t) is None {
        let s = account_position(accts, t.sender);
        let r = account_position(accts, t.receiver);
        let after_debit = accts.update(s, debited(accts[s], t));
        lemma_total_update(accts, s, debited(accts[s], t));
        lemma_total_update(after_debit, r, credited(after_debit[r], t));
    }
}

/// A batch of transactions, each applied or rejected in order, leaves the
/// total of all balances unchanged.
pub proof fn lemma_conservation_batch(accts: Seq<AccountView>, txs: Seq<TxnView>)
    requires
        distinct_addresses(accts),
    ensures
        total_credits(apply_txns(accts, txs)) == total_credits(accts),
        distinct_addresses(apply_txns(accts, txs)),
    decreases txs.len(),
{
    if txs.len() > 0 {
        lemma_conservation_batch(accts, txs.drop_last());
        lemma_conservation(apply_txns(accts, txs.drop_last()), txs.last());
    }
}

/// The balance at `addr`, or 0 when no account has that address.
pub open spec fn balance_of(accts: Seq<AccountView>, addr: Seq<char>) -> int {
    let p = account_position(accts, addr);
    if p >= 0 {
        accts[p].credits
    } else {
        0
    }
}

/// What applying `t` to `accts` adds to the balance at `addr`: the amount
/// when it is accepted and credits `addr`, less the amount when it is
/// accepted and debits `addr`; nothing when it is rejected.
pub open spec fn flow(accts: Seq<AccountView>, t: TxnView, addr: Seq<char>) -> int {
    if rejection_of(accts, t) is None {
        (if t.receiver == addr {
            t.amount
        } else {
            0
        }) - (if t.sender == addr {
            t.amount
        } else {
            0
        })
    } else {
        0
    }
}

/// The sum of `flow` over `txs`, each taken against the accounts it meets.
pub open spec fn net_flow(accts: Seq<AccountView>, txs: Seq<TxnView>, addr: Seq<char>) -> int
    decreases txs.len(),
{
    if txs.len() == 0 {
        0
    } else {
        net_flow(accts, txs.drop_last(), addr) + flow(
            apply_txns(accts, txs.drop_last()),
            txs.last(),
            addr,
        )
    }
}

proof fn lemma_balance_step(accts: Seq<AccountView>, t: TxnView, addr: Seq<char>)
    requires
        distinct_addresses(accts),
    ensures
        balance_of(apply_txn(accts, t), addr) == balance_of(accts, addr) + flow(accts, t, addr),
{
    lemma_conservation(accts, t);
    lemma_apply_keeps_addresses(accts, t);
    let b = apply_txn(accts, t);
    let p = account_position(accts, addr);
    if p >= 0 {
        lemma_position_of(b, addr, p);
    } else {
        if account_position(b, addr) >= 0 {
            let q = account_position(b, addr);
            assert(accts[q].address == addr);
        }
    }
    if rejection_of(accts, t) is None {
        let s = account_position(accts, t.sender);
        let r = account_position(accts, t.receiver);
        if p >= 0 {
            assert(t.sender == addr <==> s == p);
            assert(t.receiver == addr <==> r == p);
        }
    }
}

/// Per address, a batch changes the balance by exactly the amounts its
/// accepted transactions credit to it less those they debit from it;
/// rejected transactions change no balance.
pub proof fn lemma_balance_per_address(accts: Seq<AccountView>, txs: Seq<TxnView>, addr: Seq<char>)
    requires
        distinct_addresses(accts),
    ensures
        balance_of(apply_txns(accts, txs), addr) == balance_of(accts, addr) + net_flow(
            accts,
            txs,
            addr,
        ),
    decreases txs.len(),
{
    if txs.len() > 0 {
        lemma_balance_per_address(accts, txs.drop_last(), addr);
        lemma_conservation_batch(accts, txs.drop_last());
        lemma_balance_step(apply_txns(accts, txs.drop_last()), txs.last(), addr);
    }
}

/// The abstract ledger: the staging copy the writer mutates and the
/// snapshot readers see.
pub struct LedgerView {
    pub staged: Seq<AccountView>,
    pub published: Seq<AccountView>,
}

/// The ledger after `commit`: what was staged is published and stays staged.
pub open spec fn committed(l: LedgerView) -> LedgerView {
    LedgerView { staged: l.staged, published: l.staged }
}

/// A read handle shows the published snapshot of the moment it was taken.
pub open spec fn handle_view(l: LedgerView) -> Seq<AccountView> {
    l.published
}

/// The ledger after the writer applies `txs` to its staging copy.
pub open spec fn written(l: LedgerView, txs: Seq<TxnView>) -> LedgerView {
    LedgerView { staged: apply_txns(l.staged, txs), published: l.published }
}

/// Whatever the writer applies, a handle taken before the commit shows the
/// snapshot published before it; a handle taken after the commit shows
/// every write the commit publishes.
pub proof fn lemma_snapshot_isolation(l: LedgerView, txs: Seq<TxnView>)
    ensures
        handle_view(written(l, txs)) == handle_view(l),
        handle_view(committed(written(l, txs))) == apply_txns(l.staged, txs),
        committed(written(l, txs)).staged == apply_txns(l.staged, txs),
{
}

/// A read-only snapshot of the accounts.
pub struct AccountsHandle {
    accounts: Arc<Vec<Account>>,
}

impl View for AccountsHandle {
    type V = Seq<AccountView>;

    closed spec fn view(&self) -> Seq<AccountView> {
        account_views(self.accounts@)
    }
}

fn find_account(accounts: &Vec<Account>, addr: &String) -> (r: Option<usize>)
    requires
        distinct_addresses(account_views(accounts@)),
    ensures
        r is Some <==> account_position(account_views(accounts@), addr@) >= 0,
        r matches Some(i) ==> i as int == account_position(account_views(accounts@), addr@),
        r is None ==> account_position(account_views(accounts@), addr@) == -1,
{
    let ghost v = account_views(accounts@);
    let mut i: usize = 0;
    while i < accounts.len()
        invariant
            i <= accounts.len(),
            v == account_views(accounts@),
            distinct_addresses(v),
            forall|j: int| 0 <= j < i ==> #[trigger] v[j].address != addr@,
        decreases accounts.len() - i,
    {
        assert(v[i as int] == accounts@[i as int]@);
        if accounts[i].address.eq(addr) {
            proof {
                lemma_position_of(v, addr@, i as int);
            }
            return Some(i);
        }
        i = i + 1;
    }
    None
}

impl AccountsHandle {
    /// The account with this address in the snapshot.
    pub fn get(&self, addr: &String) -> (r: Option<&Account>)
        requires
            distinct_addresses(self@),
        ensures
            r is Some <==> account_position(self@, addr@) >= 0,
            r matches Some(a) ==> a@ == self@[account_position(self@, addr@)],
    {
        match find_account(&self.accounts, addr) {
            Some(i) => Some(&self.accounts[i]),
            None => None,
        }
    }

    /// Every account of the snapshot.
    pub fn state_store_values(&self) -> (r: &Vec<Account>)
        ensures
            account_views(r@) == self@,
    {
        &self.accounts
    }
}

/// The account ledger: one staging copy that the writer mutates, and the
/// published snapshot that read handles share.
pub struct AccountLedger {
    staging: Vec<Account>,
    published: Arc<Vec<Account>>,
}

impl View for AccountLedger {
    type V = LedgerView;

    closed spec fn view(&self) -> LedgerView {
        LedgerView {
            staged: account_views(self.staging@),
            published: account_views(self.published@),
        }
    }
}

/// Whether an address occurs in `accts`.
pub open spec fn has_address(accts: Seq<AccountView>, addr: Seq<char>) -> bool {
    exists|i: int| 0 <= i < accts.len() && #[trigger] accts[i].address == addr
}

/// Whether `batch` may seed `accts`: its addresses are distinct and new.
pub open spec fn seedable(accts: Seq<AccountView>, batch: Seq<AccountView>) -> bool {
    &&& distinct_addresses(batch)
    &&& forall|j: int| 0 <= j < batch.len() ==> !has_address(accts, #[trigger] batch[j].address)
}

/// Why `extend_accounts` refused its batch.
#[derive(Clone, Copy, Debug, PartialEq, Eq, Structural)]
pub enum LedgerError {
    AddressTaken,
}

fn copy_accounts(v: &Vec<Account>) -> (r: Vec<Account>)
    ensures
        account_views(r@) == account_views(v@),
{
    let mut out: Vec<Account> = Vec::new();
    let mut i: usize = 0;
    while i < v.len()
        invariant
            i <= v.len(),
            account_views(out@) =~= account_views(v@).take(i as int),
        decreases v.len() - i,
    {
        let ghost before = out@;
        out.push(v[i].duplicate());
        assert(account_views(out@) =~= account_views(before).push(v@[i as int]@));
        assert(account_views(v@).take(i + 1) =~= account_views(v@).take(i as int).push(v@[i as int]@));
        i = i + 1;
    }
    assert(account_views(v@).take(v.len() as int) =~= account_views(v@));
    out
}

impl AccountLedger {
    pub open spec fn wf(&self) -> bool {
        distinct_addresses(self@.staged) && distinct_addresses(self@.published)
    }

    pub fn new() -> (r: AccountLedger)
        ensures
            r.wf(),
            r@.staged.len() == 0,
            r@.published.len() == 0,
    {
        let r = AccountLedger { staging: Vec::new(), published: Arc::new(Vec::new()) };
        assert(r@.staged =~= seq![]);
        assert(r@.published =~= seq![]);
        r
    }

    /// A handle on the snapshot published last. Later writes and commits do
    /// not change what it shows.
    pub fn read_handle(&self) -> (r: AccountsHandle)
        ensures
            r@ == handle_view(self@),
    {
        AccountsHandle { accounts: Arc::clone(&self.published) }
    }

    /// Publishes the staging copy as the new snapshot; staging goes on from
    /// a copy of it.
    pub fn commit(&mut self)
        requires
            old(self).wf(),
        ensures
            final(self).wf(),
            final(self)@ == committed(old(self)@),
    {
        let snapshot = copy_accounts(&self.staging);
        self.published = Arc::new(snapshot);
    }

    /// The staged account with this address.
    pub fn get_staged(&self, addr: &String) -> (r: Option<&Account>)
        requires
            self.wf(),
        ensures
            r is Some <==> account_position(self@.staged, addr@) >= 0,
            r matches Some(a) ==> a@ == self@.staged[account_position(self@.staged, addr@)],
    {
        match find_account(&self.staging, addr) {
            Some(i) => Some(&self.staging[i]),
            None => None,
        }
    }

    /// Seeds the staging copy with new accounts. A batch that repeats an
    /// address, or names one already staged, is refused whole.
    pub fn extend_accounts(&mut self, accounts: Vec<Account>) -> (r: Result<(), LedgerError>)
        requires
            old(self).wf(),
        ensures
            final(self).wf(),
            r is Ok <==> seedable(old(self)@.staged, account_views(accounts@)),
            r is Ok ==> final(self)@.staged == old(self)@.staged + account_views(accounts@),
            r is Err ==> final(self)@.staged == old(self)@.staged,
            final(self)@.published == old(self)@.published,
    {
        let ghost batch = account_views(accounts@);
        let ghost s0 = self@.staged;
        let mut i: usize = 0;
        while i < accounts.len()
            invariant
                i <= accounts.len(),
                batch == account_views(accounts@),
                self@.staged == s0,
                self.wf(),
                distinct_addresses(s0),
                distinct_addresses(batch.take(i as int)),
                forall|j: int| 0 <= j < i ==> !has_address(s0, #[trigger] batch[j].address),
            decreases accounts.len() - i,
        {
            assert(batch[i as int] == accounts@[i as int]@);
            if find_account(&self.staging, &accounts[i].address).is_some() {
                assert(has_address(s0, batch[i as int].address));
                return Err(LedgerError::AddressTaken);
            }
            let mut k: usize = 0;
            while k < i
                invariant
                    k <= i < accounts.len(),
                    self.wf(),
                    batch == account_views(accounts@),
                    forall|j: int| 0 <= j < k ==> #[trigger] batch[j].address != batch[i as int].address,
                decreases i - k,
            {
                assert(batch[k as int] == accounts@[k as int]@);
                if accounts[k].address.eq(&accounts[i].address) {
                    assert(!distinct_addresses(batch)) by {
                        assert(batch[k as int].address == batch[i as int].address);
                    }
                    return Err(LedgerError::AddressTaken);
                }
                k = k + 1;
            }
            assert(distinct_addresses(batch.take(i + 1)));
            i = i + 1;
        }
        assert(batch.take(accounts.len() as int) =~= batch);
        let ghost merged = s0 + batch;
        assert(distinct_addresses(merged)) by {
            assert forall|a: int, b: int|
                0 <= a < merged.len() && 0 <= b < merged.len() && a != b implies #[trigger] merged[a].address
                != #[trigger] merged[b].address by {
                if a >= s0.len() && b < s0.len() {
                    assert(!has_address(s0, batch[a - s0.len()].address));
                    assert(s0[b].address == merged[b].address);
                } else if b >= s0.len() && a < s0.len() {
                    assert(!has_address(s0, batch[b - s0.len()].address));
                    assert(s0[a].address == merged[a].address);
                }
            }
        }
        let mut accounts = accounts;
        self.staging.append(&mut accounts);
        assert(self@.staged =~= merged);
        Ok(())
    }

    /// Applies one transaction to the staging copy: the sender is debited,
    /// its nonce set to the transaction's and the digest logged as sent; the
    /// receiver is credited and the digest logged as received. A rejected
    /// transaction changes nothing.
    pub fn apply_txn(&mut self, t: &Txn) -> (r: Option<Rejection>)
        requires
            old(self).wf(),
        ensures
            final(self).wf(),
            r == rejection_of(old(self)@.staged, t@),
            final(self)@.staged == apply_txn(old(self)@.staged, t@),
            final(self)@.published == old(self)@.published,
    {
        let ghost a0 = self@.staged;
        proof {
            lemma_conservation(a0, t@);
        }
        let s = match find_account(&self.staging, &t.sender) {
            Some(s) => s,
            None => return Some(Rejection::UnknownSender),
        };
        let r = match find_account(&self.staging, &t.receiver) {
            Some(r) => r,
            None => return Some(Rejection::UnknownReceiver),
        };
        assert(a0[s as int] == self.staging@[s as int]@);
        assert(a0[r as int] == self.staging@[r as int]@);
        if self.staging[s].credits < t.amount {
            return Some(Rejection::InsufficientCredits);
        }
        if t.nonce <= self.staging[s].nonce {
            return Some(Rejection::StaleNonce);
        }
        if s != r && self.staging[r].credits > u128::MAX - t.amount {
            return Some(Rejection::CreditOverflow);
        }
        let mut sender = self.staging.remove(s);
        sender.credits = sender.credits - t.amount;
        sender.nonce = t.nonce;
        let ghost sent0 = sender.sent@;
        sender.sent.push(t.digest.clone());
        assert(digests_view(sender.sent@) =~= digests_view(sent0).push(t.digest@));
        self.staging.insert(s, sender);
        let ghost after_debit = a0.update(s as int, debited(a0[s as int], t@));
        assert(account_views(self.staging@) =~= after_debit);
        let mut receiver = self.staging.remove(r);
        assert(receiver@ == after_debit[r as int]);
        receiver.credits = receiver.credits + t.amount;
        let ghost recv0 = receiver.received@;
        receiver.received.push(t.digest.clone());
        assert(digests_view(receiver.received@) =~= digests_view(recv0).push(t.digest@));
        self.staging.insert(r, receiver);
        assert(account_views(self.staging@) =~= after_debit.update(
            r as int,
            credited(after_debit[r as int], t@),
        ));
        None
    }
}

} // verus!
