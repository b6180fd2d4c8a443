use vstd::prelude::*;
use crate::digits::{dec_digits, u64_to_dec};
use sha2::{Digest, Sha256};

verus! {

/// One transfer between two identifiers, in whole units.
pub struct Transaction {
    pub sender: Vec<u8>,
    pub receiver: Vec<u8>,
    pub amount: u64,
}

/// The mathematical content of a `Transaction`.
pub ghost struct TxModel {
    pub sender: Seq<u8>,
    pub receiver: Seq<u8>,
    pub amount: u64,
}

impl View for Transaction {
    type V = TxModel;

    open spec fn view(&self) -> TxModel {
        TxModel { sender: self.sender@, receiver: self.receiver@, amount: self.amount }
    }
}

impl Clone for Transaction {
    fn clone(&self) -> (r: Self)
        ensures
            r@ == self@,
    {
        Transaction {
            sender: clone_bytes(&self.sender),
            receiver: clone_bytes(&self.receiver),
            amount: self.amount,
        }
    }
}

/// The contents of a transaction sequence, transaction by transaction.
pub open spec fn txs_view(ts: Seq<Transaction>) -> Seq<TxModel> {
    ts.map_values(|t: Transaction| t@)
}

/// One entry of the chain: a batch of transactions linked by digest to its
/// predecessor, with the nonce that the miner chose.
pub struct Block {
    pub index: u32,
    pub timestamp: u64,
    pub previous_hash: Vec<u8>,
    pub hash: Vec<u8>,
    pub transactions: Vec<Transaction>,
    pub nonce: u64,
}

/// The mathematical content of a `Block`.
pub ghost struct BlockModel {
    pub index: u32,
    pub timestamp: u64,
    pub previous_hash: Seq<u8>,
    pub hash: Seq<u8>,
    pub transactions: Seq<TxModel>,
    pub nonce: u64,
}

impl View for Block {
    type V = BlockModel;

    open spec fn view(&self) -> BlockModel {
        BlockModel {
            index: self.index,
            timestamp: self.timestamp,
            previous_hash: self.previous_hash@,
            hash: self.hash@,
            transactions: txs_view(self.transactions@),
            nonce: self.nonce,
        }
    }
}

impl Clone for Block {
    fn clone(&self) -> (r: Self)
        ensures
            r@ == self@,
    {
        let r = Block {
            index: self.index,
            timestamp: self.timestamp,
            previous_hash: clone_bytes(&self.previous_hash),
            hash: clone_bytes(&self.hash),
            transactions: clone_transactions(&self.transactions),
            nonce: self.nonce,
        };
        assert(r@.transactions =~= self@.transactions);
        r
    }
}

/// Copy a byte vector.
fn clone_bytes(v: &Vec<u8>) -> (r: Vec<u8>)
    ensures
        r@ == v@,
{
    let mut r: Vec<u8> = Vec::new();
    r.extend_from_slice(v.as_slice());
    assert(r@ =~= v@);
    r
}

/// Copy a transaction batch.
fn clone_transactions(ts: &Vec<Transaction>) -> (r: Vec<Transaction>)
    ensures
        txs_view(r@) == txs_view(ts@),
{
    let mut r: Vec<Transaction> = Vec::new();
    let n = ts.len();
    for i in 0..n
        invariant
            n == ts.len(),
            r.len() == i,
            forall|j: int| 0 <= j < i ==> r@[j]@ == ts@[j]@,
    {
        r.push(ts[i].clone());
    }
    assert(txs_view(r@) =~= txs_view(ts@));
    r
}

/// The canonical digest input of one transaction: its sender, its receiver,
/// then its amount in decimal.
pub open spec fn tx_input(t: TxModel) -> Seq<u8> {
    t.sender + t.receiver + dec_digits(t.amount as nat)
}

/// The canonical digest input of a batch: each transaction's input,
/// concatenated in sequence order.
pub open spec fn txs_input(ts: Seq<TxModel>) -> Seq<u8>
    decreases ts.len(),
{
    if ts.len() == 0 {
        Seq::empty()
    } else {
        txs_input(ts.drop_last()) + tx_input(ts.last())
    }
}

/// The canonical digest input of a block: its index, timestamp, transaction
/// batch, previous digest and nonce, in that order, integers in decimal.
pub open spec fn block_input(
    index: u32,
    timestamp: u64,
    txs: Seq<TxModel>,
    previous_hash: Seq<u8>,
    nonce: u64,
) -> Seq<u8> {
    dec_digits(index as nat) + dec_digits(timestamp as nat) + txs_input(txs) + previous_hash
        + dec_digits(nonce as nat)
}

/// The digest that a block's fields determine (the `hash` field plays no part).
pub open spec fn spec_hash_of(b: BlockModel) -> Seq<u8> {
    sha256_hex_of(block_input(b.index, b.timestamp, b.transactions, b.previous_hash, b.nonce))
}

/// The lowercase hex rendering of the SHA-256 digest of `input`.
pub uninterp spec fn sha256_hex_of(input: Seq<u8>) -> Seq<u8>;

/// Relies on sha2's `Sha256` (`update`, `finalize`): the digest is a function
/// of the input bytes alone, 32 bytes, rendered as 64 lowercase hex characters.
#[verifier::external_body]
fn sha256_hex(input: &[u8]) -> (r: Vec<u8>)
    ensures
        r@ == sha256_hex_of(input@),
        r@.len() == 64,
{
    let mut sha = Sha256::new();
    sha.update(input);
    format!("{:x}", sha.finalize()).into_bytes()
}

/// The digest is a pure function of a block's canonical fields: two blocks
/// that agree on index, timestamp, transactions, previous digest and nonce
/// carry the same digest input, and so the same digest — whatever their
/// `hash` fields hold.
pub proof fn lemma_hash_deterministic(a: BlockModel, b: BlockModel)
    requires
        a.index == b.index,
        a.timestamp == b.timestamp,
        a.transactions == b.transactions,
        a.previous_hash == b.previous_hash,
        a.nonce == b.nonce,
    ensures
        spec_hash_of(a) == spec_hash_of(b),
{
}

impl Block {
    /// A block with the given fields; its digest field starts out empty.
    pub fn new(
        index: u32,
        timestamp: u64,
        transactions: Vec<Transaction>,
        previous_hash: Vec<u8>,
        nonce: u64,
    ) -> (b: Block)
        ensures
            b@ == (BlockModel {
                index,
                timestamp,
                previous_hash: previous_hash@,
                hash: Seq::empty(),
                transactions: txs_view(transactions@),
                nonce,
            }),
    {
        let b = Block { index, timestamp, transactions, previous_hash, hash: Vec::new(), nonce };
        assert(b@.hash =~= Seq::<u8>::empty());
        b
    }

    /// Recompute the digest field from the block's other fields.
    pub fn calculate_hash(&mut self)
        ensures
            final(self)@ == (BlockModel { hash: spec_hash_of(old(self)@), ..old(self)@ }),
            final(self)@.hash == spec_hash_of(final(self)@),
            final(self)@.hash.len() == 64,
    {
        let ghost m = self@;
        let mut input: Vec<u8> = u64_to_dec(self.index as u64);
        let mut ts = u64_to_dec(self.timestamp);
        input.append(&mut ts);
        let n = self.transactions.len();
        assert(txs_view(self.transactions@).take(0) =~= Seq::<TxModel>::empty());
        for i in 0..n
            invariant
                n == self.transactions.len(),
                self == old(self),
                input@ == dec_digits(m.index as nat) + dec_digits(m.timestamp as nat)
                    + txs_input(m.transactions.take(i as int)),
                m == old(self)@,
        {
            let t = &self.transactions[i];
            let mut amt = u64_to_dec(t.amount);
            input.extend_from_slice(t.sender.as_slice());
            input.extend_from_slice(t.receiver.as_slice());
            input.append(&mut amt);
            proof {
                assert(m.transactions.take(i + 1).drop_last() =~= m.transactions.take(i as int));
                assert(m.transactions.take(i + 1).last() == self.transactions@[i as int]@);
                assert(input@ =~= dec_digits(m.index as nat) + dec_digits(m.timestamp as nat)
                    + txs_input(m.transactions.take(i + 1)));
            }
        }
        assert(m.transactions.take(n as int) =~= m.transactions);
        input.extend_from_slice(self.previous_hash.as_slice());
        let mut nn = u64_to_dec(self.nonce);
        input.append(&mut nn);
        assert(input@ =~= block_input(m.index, m.timestamp, m.transactions, m.previous_hash,
            m.nonce));
        self.hash = sha256_hex(input.as_slice());
        assert(self@ == (BlockModel { hash: spec_hash_of(m), ..m }));
    }
}

} // verus!
