use vstd::prelude::*;
use crate::block::{spec_hash_of, Block, BlockModel, TxModel};
use std::time::{SystemTime, UNIX_EPOCH};

verus! {

/// The ordered, append-only sequence of blocks rooted at the genesis block.
/// No operation removes or reorders entries; growth happens only through
/// `add_block`.
pub struct Blockchain {
    chain: Vec<Block>,
}

impl View for Blockchain {
    type V = Seq<BlockModel>;

    closed spec fn view(&self) -> Seq<BlockModel> {
        self.chain@.map_values(|b: Block| b@)
    }
}

impl Clone for Blockchain {
    fn clone(&self) -> (r: Self)
        ensures
            r@ == self@,
    {
        let mut chain: Vec<Block> = Vec::new();
        let n = self.chain.len();
        for i in 0..n
            invariant
                n == self.chain.len(),
                chain.len() == i,
                forall|j: int| 0 <= j < i ==> chain@[j]@ == self.chain@[j]@,
        {
            chain.push(self.chain[i].clone());
        }
        let r = Blockchain { chain };
        assert(r@ =~= self@);
        r
    }
}

/// The genesis block: index 0, previous digest `"0"` (the single ASCII
/// character `'0'`), no transactions, nonce 0, and its own digest computed
/// from its fields like every other block's.
pub open spec fn genesis_wf(b: BlockModel) -> bool {
    &&& b.index == 0
    &&& b.previous_hash == seq![48u8]
    &&& b.transactions == Seq::<TxModel>::empty()
    &&& b.nonce == 0
    &&& b.hash == spec_hash_of(b)
    &&& b.hash.len() == 64
}

/// A well-formed chain: never empty, with the genesis block at position 0.
pub open spec fn chain_wf(s: Seq<BlockModel>) -> bool {
    s.len() >= 1 && genesis_wf(s[0])
}

/// Relies on std's `SystemTime::now` and `duration_since(UNIX_EPOCH)`:
/// seconds since the Unix epoch. Nothing is promised of the clock; the call
/// aborts if the clock reads earlier than the epoch.
#[verifier::external_body]
fn current_unix_seconds() -> u64 {
    SystemTime::now().duration_since(UNIX_EPOCH).expect("Time went backwards").as_secs()
}

impl Blockchain {
    /// A fresh chain holding exactly the genesis block.
    pub fn new() -> (r: Blockchain)
        ensures
            r@.len() == 1,
            chain_wf(r@),
    {
        let mut blockchain = Blockchain { chain: Vec::new() };
        assert(blockchain@ =~= Seq::<BlockModel>::empty());
        blockchain.create_genesis_block();
        blockchain
    }

    fn create_genesis_block(&mut self)
        requires
            old(self)@.len() == 0,
        ensures
            final(self)@.len() == 1,
            genesis_wf(final(self)@[0]),
    {
        let mut prev: Vec<u8> = Vec::new();
        prev.push(48);
        let mut genesis_block = Block::new(0, self.current_timestamp(), Vec::new(), prev, 0);
        genesis_block.calculate_hash();
        assert(genesis_block@.previous_hash =~= seq![48u8]);
        assert(genesis_block@.transactions =~= Seq::<TxModel>::empty());
        self.chain.push(genesis_block);
        assert(self@ =~= old(self)@.push(genesis_block@));
    }

    fn current_timestamp(&self) -> u64 {
        current_unix_seconds()
    }

    /// Push `block` onto the end, unconditionally; validation is the
    /// caller's duty. The prefix of the chain is untouched.
    pub fn add_block(&mut self, block: Block)
        ensures
            final(self)@ == old(self)@.push(block@),
    {
        let ghost b = block@;
        self.chain.push(block);
        assert(self@ =~= old(self)@.push(b));
    }

    /// The most recently appended block, or none only on an empty store.
    pub fn last(&self) -> (r: Option<&Block>)
        ensures
            match r {
                Some(b) => self@.len() > 0 && b@ == self@[self@.len() - 1],
                None => self@.len() == 0,
            },
    {
        let n = self.chain.len();
        if n == 0 {
            None
        } else {
            Some(&self.chain[n - 1])
        }
    }

    /// The block at position `i`.
    pub fn block_at(&self, i: usize) -> (b: &Block)
        requires
            i < self@.len(),
        ensures
            b@ == self@[i as int],
    {
        &self.chain[i]
    }

    /// The number of blocks, the genesis block included.
    pub fn len(&self) -> (r: usize)
        ensures
            r == self@.len(),
    {
        self.chain.len()
    }
}

/// Appending never disturbs the genesis block: it stays at position 0,
/// whatever and however many blocks follow it.
pub proof fn lemma_genesis_stable(s: Seq<BlockModel>, b: BlockModel)
    requires
        chain_wf(s),
    ensures
        chain_wf(s.push(b)),
        s.push(b)[0] == s[0],
        s.push(b).len() == s.len() + 1,
{
}

} // verus!
