use vstd::prelude::*;
use std::sync::Arc;
use crate::block::{block_input, sha256_hex_of, txs_view, Block, BlockModel, Transaction, TxModel};
use crate::blockvalidator::{pow_ok, BlockValidator};
use crate::digits::{dec_digits, lemma_dec_digits_nonempty, u64_to_dec};
use rand::Rng;

verus! {

/// The digest that a candidate assembled from the given fields would carry
/// once its nonce is `n`.
pub open spec fn candidate_hash(
    index: u32,
    timestamp: u64,
    txs: Seq<TxModel>,
    previous_hash: Seq<u8>,
    n: u64,
) -> Seq<u8> {
    sha256_hex_of(block_input(index, timestamp, txs, previous_hash, n))
}

/// Relies on rand's `thread_rng` and `Rng::gen_range`: a value drawn from
/// `[lo, hi)`. `gen_range` panics on an empty range, which the precondition
/// rules out.
#[verifier::external_body]
fn random_in_range(lo: u64, hi: u64) -> (r: u64)
    requires
        lo < hi,
    ensures
        lo <= r < hi,
{
    rand::thread_rng().gen_range(lo..hi)
}

/// Assembles candidate blocks with randomized transaction batches and
/// searches for a nonce that satisfies the proof-of-work predicate.
pub struct BlockCreator {
    validator: Arc<BlockValidator>,
}

impl BlockCreator {
    pub fn new(validator: Arc<BlockValidator>) -> (c: BlockCreator) {
        BlockCreator { validator }
    }

    /// The validation gate that this miner submits its candidates to.
    pub fn validator(&self) -> (v: &BlockValidator) {
        &self.validator
    }

    /// A randomized batch: one to nine transactions, each with identifiers
    /// drawn from `[1, 1000)` rendered in decimal, and an amount in
    /// `[1, 1000)`.
    pub fn generate_transactions(&self) -> (r: Vec<Transaction>)
        ensures
            1 <= r@.len() < 10,
            forall|i: int|
                0 <= i < r@.len() ==> {
                    &&& 1 <= (#[trigger] r@[i])@.amount < 1000
                    &&& r@[i]@.sender.len() >= 1
                    &&& r@[i]@.receiver.len() >= 1
                    &&& exists|v: u64| 1 <= v < 1000 && r@[i]@.sender == dec_digits(v as nat)
                    &&& exists|v: u64| 1 <= v < 1000 && r@[i]@.receiver == dec_digits(v as nat)
                },
    {
        let count = random_in_range(1, 10);
        let mut transactions: Vec<Transaction> = Vec::new();
        let mut k: u64 = 0;
        while k < count
            invariant
                k <= count,
                count < 10,
                transactions@.len() == k,
                forall|i: int|
                    0 <= i < transactions@.len() ==> {
                        &&& 1 <= (#[trigger] transactions@[i])@.amount < 1000
                        &&& transactions@[i]@.sender.len() >= 1
                        &&& transactions@[i]@.receiver.len() >= 1
                        &&& exists|v: u64|
                            1 <= v < 1000 && transactions@[i]@.sender == dec_digits(v as nat)
                        &&& exists|v: u64|
                            1 <= v < 1000 && transactions@[i]@.receiver == dec_digits(v as nat)
                    },
            decreases count - k,
        {
            let s = random_in_range(1, 1000);
            let t = random_in_range(1, 1000);
            let sender = u64_to_dec(s);
            let receiver = u64_to_dec(t);
            let amount = random_in_range(1, 1000);
            proof {
                lemma_dec_digits_nonempty(s as nat);
                lemma_dec_digits_nonempty(t as nat);
            }
            transactions.push(Transaction { sender, receiver, amount });
            proof {
                let last = transactions@.len() - 1;
                assert(transactions@[last]@.sender == dec_digits(s as nat));
                assert(transactions@[last]@.receiver == dec_digits(t as nat));
            }
            k = k + 1;
        }
        transactions
    }

    /// The proof-of-work search: starting at nonce 0 and incrementing by one,
    /// try at most `max_attempts` nonces, and return the candidate built on
    /// the first nonce whose digest satisfies the proof-of-work predicate —
    /// or nothing, when no tried nonce qualifies.
    #[verifier::loop_isolation(false)]
    pub fn mine_block(
        &self,
        index: u32,
        timestamp: u64,
        transactions: Vec<Transaction>,
        previous_hash: Vec<u8>,
        max_attempts: u64,
    ) -> (r: Option<Block>)
        ensures
            match r {
                Some(b) => {
                    &&& b@ == (BlockModel {
                        index,
                        timestamp,
                        previous_hash: previous_hash@,
                        hash: candidate_hash(
                            index,
                            timestamp,
                            txs_view(transactions@),
                            previous_hash@,
                            b@.nonce,
                        ),
                        transactions: txs_view(transactions@),
                        nonce: b@.nonce,
                    })
                    &&& pow_ok(b@.hash)
                    &&& b@.nonce < max_attempts
                    &&& forall|m: u64|
                        m < b@.nonce ==> !pow_ok(
                            candidate_hash(
                                index,
                                timestamp,
                                txs_view(transactions@),
                                previous_hash@,
                                m,
                            ),
                        )
                },
                None => forall|m: u64|
                    m < max_attempts ==> !pow_ok(
                        candidate_hash(index, timestamp, txs_view(transactions@), previous_hash@, m),
                    ),
            },
    {
        let ghost txs = txs_view(transactions@);
        let ghost prev = previous_hash@;
        if max_attempts == 0 {
            return None;
        }
        let mut block = Block::new(index, timestamp, transactions, previous_hash, 0);
        block.calculate_hash();
        let mut n: u64 = 0;
        loop
            invariant
                n < max_attempts,
                block@ == (BlockModel {
                    index,
                    timestamp,
                    previous_hash: prev,
                    hash: candidate_hash(index, timestamp, txs, prev, n),
                    transactions: txs,
                    nonce: n,
                }),
                forall|m: u64| m < n ==> !pow_ok(candidate_hash(index, timestamp, txs, prev, m)),
            decreases max_attempts - n,
        {
            if crate::blockvalidator::has_pow(&block.hash) {
                return Some(block);
            }
            if n + 1 == max_attempts {
                return None;
            }
            n = n + 1;
            block.nonce = n;
            block.calculate_hash();
        }
    }
}

} // verus!
