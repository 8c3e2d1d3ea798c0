use std::sync::Arc;
use vstd::prelude::*;

use crate::block::{txn_views, Txn, TxnView};

verus! {

/// Digests are unique.
pub open spec fn distinct_digests(p: Seq<TxnView>) -> bool {
    forall|i: int, j: int|
        0 <= i < p.len() && 0 <= j < p.len() && i != j ==> #[trigger] p[i].digest
            != #[trigger] p[j].digest
}

/// Whether a transaction with digest `d` is in `p`.
pub open spec fn has_digest(p: Seq<TxnView>, d: Seq<char>) -> bool {
    exists|i: int| 0 <= i < p.len() && #[trigger] p[i].digest == d
}

/// The position of the transaction with digest `d`, or -1.
pub open spec fn digest_position(p: Seq<TxnView>, d: Seq<char>) -> int {
    if has_digest(p, d) {
        choose|i: int| 0 <= i < p.len() && #[trigger] p[i].digest == d
    } else {
        -1
    }
}

/// `p` without the transaction whose digest is `d`.
pub open spec fn without_digest(p: Seq<TxnView>, d: Seq<char>) -> Seq<TxnView> {
    if has_digest(p, d) {
        p.remove(digest_position(p, d))
    } else {
        p
    }
}

/// `p` without the transactions whose digests are in `ds`, removed in order.
pub open spec fn without_digests(p: Seq<TxnView>, ds: Seq<Seq<char>>) -> Seq<TxnView>
    decreases ds.len(),
{
    if ds.len() == 0 {
        p
    } else {
        without_digest(without_digests(p, ds.drop_last()), ds.last())
    }
}

proof fn lemma_without_digest(p: Seq<TxnView>, d: Seq<char>, e: Seq<char>)
    requires
        distinct_digests(p),
    ensures
        distinct_digests(without_digest(p, d)),
        has_digest(without_digest(p, d), e) <==> has_digest(p, e) && e != d,
{
    if has_digest(p, d) {
        let k = digest_position(p, d);
        let q = p.remove(k);
        assert forall|i: int| 0 <= i < q.len() implies #[trigger] q[i] == (if i < k {
            p[i]
        } else {
            p[i + 1]
        }) by {}
        if has_digest(p, e) && e != d {
            let i = choose|i: int| 0 <= i < p.len() && #[trigger] p[i].digest == e;
            if i < k {
                assert(q[i].digest == e);
            } else {
                assert(q[i - 1].digest == e);
            }
        }
        if has_digest(q, e) {
            let i = choose|i: int| 0 <= i < q.len() && #[trigger] q[i].digest == e;
            if i < k {
                assert(p[i].digest == e);
            } else {
                assert(p[i + 1].digest == e);
            }
        }
    }
}

/// A pending transaction stays in the mempool until a digest of an applied
/// block names it, and is gone once one does.
pub proof fn lemma_mempool_retention(p: Seq<TxnView>, ds: Seq<Seq<char>>, d: Seq<char>)
    requires
        distinct_digests(p),
    ensures
        distinct_digests(without_digests(p, ds)),
        has_digest(without_digests(p, ds), d) <==> has_digest(p, d) && !ds.contains(d),
    decreases ds.len(),
{
    if ds.len() > 0 {
        lemma_mempool_retention(p, ds.drop_last(), d);
        lemma_without_digest(without_digests(p, ds.drop_last()), ds.last(), d);
        if ds.drop_last().contains(d) {
            let i = choose|i: int| 0 <= i < ds.drop_last().len() && ds.drop_last()[i] == d;
            assert(ds[i] == d);
        }
        if ds.contains(d) && ds.last() != d {
            let i = choose|i: int| 0 <= i < ds.len() && ds[i] == d;
            assert(ds.drop_last()[i] == d);
        }
    }
}

pub struct MempoolView {
    pub staged: Seq<TxnView>,
    pub published: Seq<TxnView>,
}

/// A read-only snapshot of the pending transactions.
pub struct MempoolHandle {
    txns: Arc<Vec<Txn>>,
}

impl View for MempoolHandle {
    type V = Seq<TxnView>;

    closed spec fn view(&self) -> Seq<TxnView> {
        txn_views(self.txns@)
    }
}

impl MempoolHandle {
    /// Every transaction of the snapshot.
    pub fn transaction_store_values(&self) -> (r: &Vec<Txn>)
        ensures
            txn_views(r@) == self@,
    {
        &self.txns
    }
}

/// Pending transactions, with a staging copy for the writer and a published
/// snapshot for readers.
pub struct Mempool {
    staging: Vec<Txn>,
    published: Arc<Vec<Txn>>,
}

impl View for Mempool {
    type V = MempoolView;

    closed spec fn view(&self) -> MempoolView {
        MempoolView { staged: txn_views(self.staging@), published: txn_views(self.published@) }
    }
}

fn copy_txns(v: &Vec<Txn>) -> (r: Vec<Txn>)
    ensures
        txn_views(r@) == txn_views(v@),
{
    let mut out: Vec<Txn> = Vec::new();
    let mut i: usize = 0;
    while i < v.len()
        invariant
            i <= v.len(),
            txn_views(out@) =~= txn_views(v@).take(i as int),
        decreases v.len() - i,
    {
        let ghost before = out@;
        out.push(v[i].duplicate());
        assert(txn_views(out@) =~= txn_views(before).push(v@[i as int]@));
        assert(txn_views(v@).take(i + 1) =~= txn_views(v@).take(i as int).push(v@[i as int]@));
        i = i + 1;
    }
    assert(txn_views(v@).take(v.len() as int) =~= txn_views(v@));
    out
}

impl Mempool {
    pub open spec fn wf(&self) -> bool {
        distinct_digests(self@.staged) && distinct_digests(self@.published)
    }

    pub fn new() -> (r: Mempool)
        ensures
            r.wf(),
            r@.staged.len() == 0,
            r@.published.len() == 0,
    {
        let r = Mempool { staging: Vec::new(), published: Arc::new(Vec::new()) };
        assert(r@.staged =~= seq![]);
        assert(r@.published =~= seq![]);
        r
    }

    fn find(&self, digest: &String) -> (r: Option<usize>)
        requires
            self.wf(),
        ensures
            r is Some <==> has_digest(self@.staged, digest@),
            r matches Some(i) ==> i as int == digest_position(self@.staged, digest@),
    {
        let ghost p = self@.staged;
        let mut i: usize = 0;
        while i < self.staging.len()
            invariant
                i <= self.staging.len(),
                p == self@.staged,
                self.wf(),
                forall|j: int| 0 <= j < i ==> #[trigger] p[j].digest != digest@,
            decreases self.staging.len() - i,
        {
            assert(p[i as int] == self.staging@[i as int]@);
            if self.staging[i].digest.eq(digest) {
                assert(p[i as int].digest == digest@);
                assert(has_digest(p, digest@));
                return Some(i);
            }
            i = i + 1;
        }
        None
    }

    /// Whether a transaction with this digest is staged.
    pub fn contains(&self, digest: &String) -> (r: bool)
        requires
            self.wf(),
        ensures
            r == has_digest(self@.staged, digest@),
    {
        self.find(digest).is_some()
    }

    /// The staged transaction with this digest.
    pub fn get(&self, digest: &String) -> (r: Option<&Txn>)
        requires
            self.wf(),
        ensures
            r is Some <==> has_digest(self@.staged, digest@),
            r matches Some(t) ==> t@ == self@.staged[digest_position(self@.staged, digest@)],
    {
        match self.find(digest) {
            Some(i) => Some(&self.staging[i]),
            None => None,
        }
    }

    /// Stages a pending transaction unless one with its digest is staged.
    /// Returns whether it was added.
    pub fn insert(&mut self, txn: Txn) -> (r: bool)
        requires
            old(self).wf(),
        ensures
            final(self).wf(),
            r == !has_digest(old(self)@.staged, txn@.digest),
            final(self)@.staged == (if r {
                old(self)@.staged.push(txn@)
            } else {
                old(self)@.staged
            }),
            final(self)@.published == old(self)@.published,
    {
        if self.find(&txn.digest).is_some() {
            return false;
        }
        let ghost p = self@.staged;
        self.staging.push(txn);
        assert(self@.staged =~= p.push(txn@));
        true
    }

    /// Removes the staged transaction with this digest. Returns whether one
    /// was there.
    pub fn remove(&mut self, digest: &String) -> (r: bool)
        requires
            old(self).wf(),
        ensures
            final(self).wf(),
            r == has_digest(old(self)@.staged, digest@),
            final(self)@.staged == without_digest(old(self)@.staged, digest@),
            final(self)@.published == old(self)@.published,
    {
        proof {
            lemma_without_digest(self@.staged, digest@, digest@);
        }
        match self.find(digest) {
            Some(i) => {
                let ghost p = self@.staged;
                self.staging.remove(i);
                assert(self@.staged =~= p.remove(i as int));
                true
            },
            None => false,
        }
    }

    /// A handle on the snapshot published last.
    pub fn read_handle(&self) -> (r: MempoolHandle)
        ensures
            r@ == self@.published,
    {
        MempoolHandle { txns: Arc::clone(&self.published) }
    }

    /// Publishes the staging copy as the new snapshot.
    pub fn commit(&mut self)
        requires
            old(self).wf(),
        ensures
            final(self).wf(),
            final(self)@.staged == old(self)@.staged,
            final(self)@.published == old(self)@.staged,
    {
        let snapshot = copy_txns(&self.staging);
        self.published = Arc::new(snapshot);
    }
}

} // verus!
