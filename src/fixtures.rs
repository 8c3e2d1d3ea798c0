use rand::seq::SliceRandom;
use vstd::prelude::*;

use crate::block::{
    claim_views, content_hash, preimage_of, txn_views, views_of, Block, BlockView, Claim,
    ClaimView, Txn, TxnView, GENESIS_TAG,
};
use vstd::arithmetic::div_mod::lemma_small_mod;

use crate::codec::{decimal_chars, json_u128};
use crate::hashing::sha256_hex;
use crate::ledger::{account_views, Account, AccountView};
use crate::router::NodeType;

verus! {

/// The balance every seeded account starts with.
pub const SEED_CREDITS: u128 = 1_000_000_000_000_000_000_000_000_000;

/// The amount every ring transfer moves.
pub const RING_AMOUNT: u128 = 10_000;

/// First byte of a transaction digest's preimage.
pub const TXN_TAG: u8 = 84;


/// The digest of a transaction: the hash of its parties and of the decimal
/// forms of its amount, nonce and timestamp.
pub open spec fn txn_digest(
    sender: Seq<char>,
    receiver: Seq<char>,
    amount: u128,
    nonce: u128,
    timestamp: u128,
) -> Seq<char> {
    sha256_hex(
        preimage_of(
            TXN_TAG,
            seq![
                sender,
                receiver,
                decimal_chars(amount as nat),
                decimal_chars(nonce as nat),
                decimal_chars(timestamp as nat),
            ],
        ),
    )
}

fn decimal(v: u128) -> (r: String)
    ensures
        r@ == decimal_chars(v as nat),
{
    match json_u128(v) {
        Some(s) => s,
        None => {
            assert(false);
            String::new()
        },
    }
}

impl Txn {
    /// A transaction whose digest is computed from its fields.
    pub fn create(sender: String, receiver: String, amount: u128, nonce: u128, timestamp: u128) -> (r:
        Txn)
        ensures
            r@ == (TxnView {
                digest: txn_digest(sender@, receiver@, amount, nonce, timestamp),
                sender: sender@,
                receiver: receiver@,
                amount: amount as int,
                nonce: nonce as int,
            }),
    {
        let mut fields: Vec<String> = Vec::new();
        fields.push(sender.clone());
        fields.push(receiver.clone());
        fields.push(decimal(amount));
        fields.push(decimal(nonce));
        fields.push(decimal(timestamp));
        assert(views_of(fields@) =~= seq![
            sender@,
            receiver@,
            decimal_chars(amount as nat),
            decimal_chars(nonce as nat),
            decimal_chars(timestamp as nat),
        ]);
        let digest = content_hash(TXN_TAG, &fields);
        Txn { digest, sender, receiver, amount, nonce }
    }
}

/// A fresh account at `address` with `SEED_CREDITS`.
pub open spec fn seeded_account(address: Seq<char>) -> AccountView {
    AccountView {
        address: address,
        credits: SEED_CREDITS as int,
        nonce: 0,
        sent: seq![],
        received: seq![],
        staked: seq![],
    }
}

/// Seeded accounts, one per address, each with `SEED_CREDITS`.
pub fn produce_accounts(addresses: Vec<String>) -> (r: Vec<Account>)
    ensures
        account_views(r@) == views_of(addresses@).map_values(|a: Seq<char>| seeded_account(a)),
{
    let ghost target = views_of(addresses@).map_values(|a: Seq<char>| seeded_account(a));
    let mut out: Vec<Account> = Vec::new();
    let mut i: usize = 0;
    while i < addresses.len()
        invariant
            i <= addresses.len(),
            target == views_of(addresses@).map_values(|a: Seq<char>| seeded_account(a)),
            account_views(out@) =~= target.take(i as int),
        decreases addresses.len() - i,
    {
        let ghost before = out@;
        let addr = addresses[i].clone();
        assert(addr@ == views_of(addresses@)[i as int]);
        let a = Account::new(addr, SEED_CREDITS);
        assert(target[i as int] == seeded_account(addr@));
        assert(a@ == target[i as int]);
        out.push(a);
        assert(account_views(out@) =~= account_views(before).push(target[i as int]));
        assert(target.take(i + 1) =~= target.take(i as int).push(target[i as int]));
        i = i + 1;
    }
    assert(target.take(addresses.len() as int) =~= target);
    out
}

/// The genesis block of the fixtures.
pub fn produce_genesis_block() -> (r: Block)
    ensures
        r@ == (BlockView::Genesis {
            hash: sha256_hex(preimage_of(GENESIS_TAG, seq![seq!['g', 'e', 'n', 'e', 's', 'i', 's']])),
        }),
{
    let label = String::from_str("genesis");
    proof {
        reveal_strlit("genesis");
    }
    assert(label@ =~= seq!['g', 'e', 'n', 'e', 's', 'i', 's']);
    Block::genesis(&label)
}

/// A transfer of `RING_AMOUNT` from `sender` to `receiver`, with the
/// sender's next nonce.
pub fn create_txn_from_accounts(sender: &Account, receiver: &String, timestamp: u128) -> (r: Txn)
    requires
        sender@.nonce < u128::MAX,
    ensures
        r@ == ring_txn(sender@, receiver@, timestamp),
{
    Txn::create(sender.address().clone(), receiver.clone(), RING_AMOUNT, sender.nonce() + 1, timestamp)
}

pub open spec fn ring_txn(sender: AccountView, receiver: Seq<char>, timestamp: u128) -> TxnView {
    TxnView {
        digest: txn_digest(
            sender.address,
            receiver,
            RING_AMOUNT,
            (sender.nonce + 1) as u128,
            timestamp,
        ),
        sender: sender.address,
        receiver: receiver,
        amount: RING_AMOUNT as int,
        nonce: sender.nonce + 1,
    }
}

/// Each account paying the next one, the last paying the first.
pub open spec fn ring_txns(accounts: Seq<AccountView>, timestamp: u128) -> Seq<TxnView> {
    Seq::new(
        accounts.len(),
        |i: int| ring_txn(accounts[i], accounts[(i + 1) % (accounts.len() as int)].address, timestamp),
    )
}

pub open spec fn nonces_below_max(accounts: Seq<AccountView>) -> bool {
    forall|i: int| 0 <= i < accounts.len() ==> #[trigger] accounts[i].nonce < u128::MAX
}

/// One transfer from each account to the next, the last to the first.
pub fn produce_random_txs(accounts: &Vec<Account>, timestamp: u128) -> (r: Vec<Txn>)
    requires
        nonces_below_max(account_views(accounts@)),
    ensures
        txn_views(r@) == ring_txns(account_views(accounts@), timestamp),
{
    let ghost av = account_views(accounts@);
    let mut out: Vec<Txn> = Vec::new();
    let n = accounts.len();
    let mut i: usize = 0;
    while i < n
        invariant
            n == accounts.len(),
            i <= n,
            av == account_views(accounts@),
            nonces_below_max(av),
            txn_views(out@) =~= ring_txns(av, timestamp).take(i as int),
        decreases n - i,
    {
        let next = if i + 1 == n {
            0
        } else {
            i + 1
        };
        proof {
            if i + 1 < n {
                lemma_small_mod((i + 1) as nat, n as nat);
            } else {
                assert((n as int) % (n as int) == 0) by (nonlinear_arith)
                    requires
                        n > 0,
                ;
            }
        }
        assert(next as int == (i as int + 1) % (n as int));
        assert(av[i as int] == accounts@[i as int]@);
        assert(av[next as int] == accounts@[next as int]@);
        let t = create_txn_from_accounts(&accounts[i], accounts[next].address(), timestamp);
        let ghost before = out@;
        out.push(t);
        assert(txn_views(out@) =~= txn_views(before).push(t@));
        assert(ring_txns(av, timestamp).take(i + 1) =~= ring_txns(av, timestamp).take(i as int).push(
            t@,
        ));
        i = i + 1;
    }
    assert(ring_txns(av, timestamp).take(n as int) =~= ring_txns(av, timestamp));
    out
}

fn copy_claims(claims: &Vec<Claim>) -> (r: Vec<Claim>)
    ensures
        claim_views(r@) == claim_views(claims@),
{
    let mut out: Vec<Claim> = Vec::new();
    let mut i: usize = 0;
    while i < claims.len()
        invariant
            i <= claims.len(),
            claim_views(out@) =~= claim_views(claims@).take(i as int),
        decreases claims.len() - i,
    {
        let ghost before = out@;
        out.push(claims[i].duplicate());
        assert(claim_views(out@) =~= claim_views(before).push(claims@[i as int]@));
        assert(claim_views(claims@).take(i + 1) =~= claim_views(claims@).take(i as int).push(
            claims@[i as int]@,
        ));
        i = i + 1;
    }
    assert(claim_views(claims@).take(claims.len() as int) =~= claim_views(claims@));
    out
}

/// Whether `b` is a proposal on `parent` carrying `txns` and `claims`.
pub open spec fn is_proposal_of(
    b: BlockView,
    parent: Seq<char>,
    txns: Seq<TxnView>,
    claims: Seq<ClaimView>,
) -> bool {
    &&& b is Proposal
    &&& b->Proposal_parent == parent
    &&& b->Proposal_txns == txns
    &&& b->Proposal_claims == claims
}

/// `n` proposals on `last_block_hash`; proposal `k` carries the ring
/// transfers of `accounts` stamped `k`, and every proposal carries `claims`.
pub fn produce_proposal_blocks(
    last_block_hash: &String,
    accounts: &Vec<Account>,
    n: usize,
    claims: &Vec<Claim>,
) -> (r: Vec<Block>)
    requires
        nonces_below_max(account_views(accounts@)),
    ensures
        r@.len() == n,
        forall|k: int|
            0 <= k < n ==> is_proposal_of(
                #[trigger] r@[k]@,
                last_block_hash@,
                ring_txns(account_views(accounts@), k as u128),
                claim_views(claims@),
            ),
{
    let mut out: Vec<Block> = Vec::new();
    let mut k: usize = 0;
    while k < n
        invariant
            k <= n,
            out@.len() == k,
            nonces_below_max(account_views(accounts@)),
            forall|j: int|
                0 <= j < k ==> is_proposal_of(
                    #[trigger] out@[j]@,
                    last_block_hash@,
                    ring_txns(account_views(accounts@), j as u128),
                    claim_views(claims@),
                ),
        decreases n - k,
    {
        let txns = produce_random_txs(accounts, k as u128);
        let block = Block::proposal(last_block_hash.clone(), txns, copy_claims(claims));
        out.push(block);
        k = k + 1;
    }
    out
}

/// A mock transfer for index `n`: it moves `n * n` credits with nonce `n`.
pub fn create_mock_transaction_args(n: u64, sender: String, receiver: String) -> (r: Txn)
    ensures
        r@ == (TxnView {
            digest: txn_digest(sender@, receiver@, (n * n) as u128, n as u128, 0),
            sender: sender@,
            receiver: receiver@,
            amount: n * n,
            nonce: n as int,
        }),
{
    let m = n as u128;
    assert(m * m <= u128::MAX) by (nonlinear_arith)
        requires
            m <= u64::MAX,
    ;
    Txn::create(sender, receiver, m * m, m, 0)
}

/// The roles of `n` nodes before shuffling: a quarter validators, then half
/// miners.
pub open spec fn nodes_pattern(n: nat) -> Seq<NodeType> {
    Seq::new(n / 4, |i: int| NodeType::Validator) + Seq::new(n / 2, |i: int| NodeType::Miner)
}

/// Relies on rand's `SliceRandom::shuffle` with `thread_rng`: it only swaps
/// elements, so what comes out is a permutation of what went in.
#[verifier::external_body]
fn shuffle_node_types(v: &mut Vec<NodeType>)
    ensures
        final(v)@.to_multiset() == old(v)@.to_multiset(),
{
    v.shuffle(&mut rand::thread_rng());
}

/// The roles of `n` nodes, a quarter validators and half miners, in random
/// order.
pub fn generate_nodes_pattern(n: usize) -> (r: Vec<NodeType>)
    ensures
        r@.to_multiset() == nodes_pattern(n as nat).to_multiset(),
{
    let validators = n / 4;
    let miners = n / 2;
    let mut out: Vec<NodeType> = Vec::new();
    let mut i: usize = 0;
    while i < validators
        invariant
            i <= validators,
            out@ =~= Seq::new(i as nat, |k: int| NodeType::Validator),
        decreases validators - i,
    {
        out.push(NodeType::Validator);
        i = i + 1;
    }
    let mut j: usize = 0;
    while j < miners
        invariant
            j <= miners,
            validators == n / 4,
            out@ =~= Seq::new(validators as nat, |k: int| NodeType::Validator) + Seq::new(
                j as nat,
                |k: int| NodeType::Miner,
            ),
        decreases miners - j,
    {
        out.push(NodeType::Miner);
        j = j + 1;
    }
    assert(out@ == nodes_pattern(n as nat));
    shuffle_node_types(&mut out);
    out
}

} // verus!
