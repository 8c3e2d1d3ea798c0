use vstd::prelude::*;
use vstd::string::StrSliceExecFns;
use vstd::utf8::encode_utf8;

use crate::hashing::{sha256_digest, sha256_hex};

verus! {

/// Byte that separates the fields of a block's hash preimage.
pub const FIELD_SEPARATOR: u8 = 124;

/// First byte of a genesis block's hash preimage.
pub const GENESIS_TAG: u8 = 71;

/// First byte of a proposal block's hash preimage.
pub const PROPOSAL_TAG: u8 = 80;

/// First byte of a convergence block's hash preimage.
pub const CONVERGENCE_TAG: u8 = 67;

/// First byte of a claim's hash preimage.
pub const CLAIM_TAG: u8 = 76;

/// A transfer of credits from one account to another.
pub struct Txn {
    pub digest: String,
    pub sender: String,
    pub receiver: String,
    pub amount: u128,
    pub nonce: u128,
}

pub struct TxnView {
    pub digest: Seq<char>,
    pub sender: Seq<char>,
    pub receiver: Seq<char>,
    pub amount: int,
    pub nonce: int,
}

impl View for Txn {
    type V = TxnView;

    open spec fn view(&self) -> TxnView {
        TxnView {
            digest: self.digest@,
            sender: self.sender@,
            receiver: self.receiver@,
            amount: self.amount as int,
            nonce: self.nonce as int,
        }
    }
}

impl Txn {
    pub fn new(digest: String, sender: String, receiver: String, amount: u128, nonce: u128) -> (r: Txn)
        ensures
            r.digest == digest,
            r.sender == sender,
            r.receiver == receiver,
            r.amount == amount,
            r.nonce == nonce,
    {
        Txn { digest, sender, receiver, amount, nonce }
    }

    pub fn duplicate(&self) -> (r: Txn)
        ensures
            r@ == self@,
    {
        Txn {
            digest: self.digest.clone(),
            sender: self.sender.clone(),
            receiver: self.receiver.clone(),
            amount: self.amount,
            nonce: self.nonce,
        }
    }
}

/// A proposer's eligibility record, identified by the hash of its fields.
pub struct Claim {
    pub hash: String,
    pub node_id: String,
    pub address: String,
    pub signature: String,
}

pub struct ClaimView {
    pub hash: Seq<char>,
    pub node_id: Seq<char>,
    pub address: Seq<char>,
    pub signature: Seq<char>,
}

impl View for Claim {
    type V = ClaimView;

    open spec fn view(&self) -> ClaimView {
        ClaimView {
            hash: self.hash@,
            node_id: self.node_id@,
            address: self.address@,
            signature: self.signature@,
        }
    }
}

impl Claim {
    /// A claim whose hash is the digest of its node id, address and signature.
    pub fn new(node_id: String, address: String, signature: String) -> (r: Claim)
        ensures
            r.node_id == node_id,
            r.address == address,
            r.signature == signature,
            r.hash@ == sha256_hex(
                preimage_of(CLAIM_TAG, seq![node_id@, address@, signature@]),
            ),
    {
        let mut parts: Vec<String> = Vec::new();
        parts.push(node_id.clone());
        parts.push(address.clone());
        parts.push(signature.clone());
        let ghost fields = seq![node_id@, address@, signature@];
        assert(views_of(parts@) =~= fields);
        let hash = content_hash(CLAIM_TAG, &parts);
        Claim { hash, node_id, address, signature }
    }

    pub fn duplicate(&self) -> (r: Claim)
        ensures
            r@ == self@,
    {
        Claim {
            hash: self.hash.clone(),
            node_id: self.node_id.clone(),
            address: self.address.clone(),
            signature: self.signature.clone(),
        }
    }
}

/// A block of the graph. Its identity is the hash of its content.
pub enum Block {
    Genesis { hash: String },
    Proposal { hash: String, parent: String, txns: Vec<Txn>, claims: Vec<Claim> },
    Convergence { hash: String, refs: Vec<String> },
}

pub enum BlockView {
    Genesis { hash: Seq<char> },
    Proposal {
        hash: Seq<char>,
        parent: Seq<char>,
        txns: Seq<TxnView>,
        claims: Seq<ClaimView>,
    },
    Convergence { hash: Seq<char>, refs: Seq<Seq<char>> },
}

impl BlockView {
    pub open spec fn hash(self) -> Seq<char> {
        match self {
            BlockView::Genesis { hash } => hash,
            BlockView::Proposal { hash, .. } => hash,
            BlockView::Convergence { hash, .. } => hash,
        }
    }
}

pub open spec fn views_of(strings: Seq<String>) -> Seq<Seq<char>> {
    strings.map_values(|s: String| s@)
}

pub open spec fn txn_views(txns: Seq<Txn>) -> Seq<TxnView> {
    txns.map_values(|t: Txn| t@)
}

pub open spec fn claim_views(claims: Seq<Claim>) -> Seq<ClaimView> {
    claims.map_values(|c: Claim| c@)
}

impl View for Block {
    type V = BlockView;

    open spec fn view(&self) -> BlockView {
        match self {
            Block::Genesis { hash } => BlockView::Genesis { hash: hash@ },
            Block::Proposal { hash, parent, txns, claims } => BlockView::Proposal {
                hash: hash@,
                parent: parent@,
                txns: txn_views(txns@),
                claims: claim_views(claims@),
            },
            Block::Convergence { hash, refs } => BlockView::Convergence {
                hash: hash@,
                refs: views_of(refs@),
            },
        }
    }
}

/// The bytes that a content hash is taken of: the tag, then each field in
/// UTF-8 followed by the separator.
pub open spec fn preimage_of(tag: u8, fields: Seq<Seq<char>>) -> Seq<u8>
    decreases fields.len(),
{
    if fields.len() == 0 {
        seq![tag]
    } else {
        preimage_of(tag, fields.drop_last()) + encode_utf8(fields.last()) + seq![FIELD_SEPARATOR]
    }
}

/// The fields hashed for a proposal: its parent, its transaction digests,
/// then its claim hashes.
pub open spec fn proposal_fields(parent: Seq<char>, txns: Seq<TxnView>, claims: Seq<ClaimView>) -> Seq<
    Seq<char>,
> {
    seq![parent] + txns.map_values(|t: TxnView| t.digest) + claims.map_values(
        |c: ClaimView| c.hash,
    )
}

fn preimage(tag: u8, fields: &Vec<String>) -> (r: Vec<u8>)
    ensures
        r@ == preimage_of(tag, views_of(fields@)),
{
    let mut out: Vec<u8> = Vec::new();
    out.push(tag);
    let mut i: usize = 0;
    while i < fields.len()
        invariant
            i <= fields.len(),
            out@ == preimage_of(tag, views_of(fields@).take(i as int)),
        decreases fields.len() - i,
    {
        let ghost prev = views_of(fields@).take(i as int);
        let mut bytes = fields[i].as_str().as_bytes_vec();
        out.append(&mut bytes);
        out.push(FIELD_SEPARATOR);
        let ghost next = views_of(fields@).take(i + 1);
        assert(next.drop_last() =~= prev);
        i = i + 1;
    }
    assert(views_of(fields@).take(fields.len() as int) =~= views_of(fields@));
    out
}

/// The hex digest of the preimage made of `tag` and `fields`.
pub fn content_hash(tag: u8, fields: &Vec<String>) -> (r: String)
    ensures
        r@ == sha256_hex(preimage_of(tag, views_of(fields@))),
        r@.len() == 64,
{
    let bytes = preimage(tag, fields);
    sha256_digest(&bytes)
}

impl Block {
    pub fn hash(&self) -> (r: &String)
        ensures
            r@ == self@.hash(),
    {
        match self {
            Block::Genesis { hash } => hash,
            Block::Proposal { hash, .. } => hash,
            Block::Convergence { hash, .. } => hash,
        }
    }

    /// A genesis block whose hash is taken of `label`.
    pub fn genesis(label: &String) -> (r: Block)
        ensures
            r is Genesis,
            r@.hash() == sha256_hex(preimage_of(GENESIS_TAG, seq![label@])),
    {
        let mut fields: Vec<String> = Vec::new();
        fields.push(label.clone());
        assert(views_of(fields@) =~= seq![label@]);
        Block::Genesis { hash: content_hash(GENESIS_TAG, &fields) }
    }

    /// A proposal on `parent` carrying `txns` and `claims`.
    pub fn proposal(parent: String, txns: Vec<Txn>, claims: Vec<Claim>) -> (r: Block)
        ensures
            r@ == (BlockView::Proposal {
                hash: sha256_hex(
                    preimage_of(
                        PROPOSAL_TAG,
                        proposal_fields(parent@, txn_views(txns@), claim_views(claims@)),
                    ),
                ),
                parent: parent@,
                txns: txn_views(txns@),
                claims: claim_views(claims@),
            }),
    {
        let mut fields: Vec<String> = Vec::new();
        fields.push(parent.clone());
        let mut i: usize = 0;
        while i < txns.len()
            invariant
                i <= txns.len(),
                views_of(fields@) =~= seq![parent@] + txn_views(txns@).take(i as int).map_values(
                    |t: TxnView| t.digest,
                ),
            decreases txns.len() - i,
        {
            let ghost before = fields@;
            fields.push(txns[i].digest.clone());
            assert(views_of(fields@) =~= views_of(before).push(txns@[i as int].digest@));
            assert(txn_views(txns@).take(i + 1).map_values(|t: TxnView| t.digest)
                =~= txn_views(txns@).take(i as int).map_values(|t: TxnView| t.digest).push(
                txns@[i as int].digest@,
            ));
            i = i + 1;
        }
        let mut j: usize = 0;
        while j < claims.len()
            invariant
                j <= claims.len(),
                views_of(fields@) =~= seq![parent@] + txn_views(txns@).map_values(
                    |t: TxnView| t.digest,
                ) + claim_views(claims@).take(j as int).map_values(|c: ClaimView| c.hash),
            decreases claims.len() - j,
        {
            let ghost before = fields@;
            fields.push(claims[j].hash.clone());
            assert(views_of(fields@) =~= views_of(before).push(claims@[j as int].hash@));
            assert(claim_views(claims@).take(j + 1).map_values(|c: ClaimView| c.hash)
                =~= claim_views(claims@).take(j as int).map_values(|c: ClaimView| c.hash).push(
                claims@[j as int].hash@,
            ));
            j = j + 1;
        }
        assert(txn_views(txns@).take(txns.len() as int) =~= txn_views(txns@));
        assert(claim_views(claims@).take(claims.len() as int) =~= claim_views(claims@));
        let hash = content_hash(PROPOSAL_TAG, &fields);
        Block::Proposal { hash, parent, txns, claims }
    }

    /// A convergence block that references `refs`.
    pub fn convergence(refs: Vec<String>) -> (r: Block)
        ensures
            r@ == (BlockView::Convergence {
                hash: sha256_hex(preimage_of(CONVERGENCE_TAG, views_of(refs@))),
                refs: views_of(refs@),
            }),
    {
        let hash = content_hash(CONVERGENCE_TAG, &refs);
        Block::Convergence { hash, refs }
    }
}

} // verus!
