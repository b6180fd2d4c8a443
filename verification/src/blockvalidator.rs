use vstd::prelude::*;
use crate::block::{Block, BlockModel};
use crate::blockchain::Blockchain;

verus! {

/// Why a candidate block was refused.
#[derive(Clone, Copy, Debug, PartialEq, Eq, Structural)]
pub enum ValidationError {
    /// The candidate's index does not extend the tail by exactly one.
    IndexMismatch,
    /// The candidate does not name the tail's digest as its predecessor.
    LinkageMismatch,
    /// The candidate's digest does not carry the required prefix.
    InsufficientWork,
}

/// The proof-of-work predicate: the digest starts with the required prefix
/// `"00"` (two ASCII `'0'` characters).
pub open spec fn pow_ok(h: Seq<u8>) -> bool {
    h.len() >= 2 && h[0] == 48 && h[1] == 48
}

/// Index continuity: the candidate extends the tail by exactly one position.
pub open spec fn index_ok(s: Seq<BlockModel>, b: BlockModel) -> bool {
    s.len() > 0 && b.index == s.last().index + 1
}

/// Hash linkage: the candidate names the tail's digest as its predecessor.
pub open spec fn linkage_ok(s: Seq<BlockModel>, b: BlockModel) -> bool {
    s.len() > 0 && b.previous_hash == s.last().hash
}

/// The single admission rule, shared by every path that grows the chain:
/// index continuity, hash linkage, and proof-of-work.
pub open spec fn admissible(s: Seq<BlockModel>, b: BlockModel) -> bool {
    index_ok(s, b) && linkage_ok(s, b) && pow_ok(b.hash)
}

/// Two byte strings hold the same bytes.
pub fn bytes_eq(a: &Vec<u8>, b: &Vec<u8>) -> (r: bool)
    ensures
        r == (a@ == b@),
{
    if a.len() != b.len() {
        return false;
    }
    let n = a.len();
    for i in 0..n
        invariant
            n == a.len(),
            n == b.len(),
            forall|j: int| 0 <= j < i ==> a@[j] == b@[j],
    {
        if a[i] != b[i] {
            return false;
        }
    }
    assert(a@ =~= b@);
    true
}

/// The digest satisfies the proof-of-work predicate.
pub fn has_pow(h: &Vec<u8>) -> (r: bool)
    ensures
        r == pow_ok(h@),
{
    h.len() >= 2 && h[0] == 48 && h[1] == 48
}

/// The single gate through which every append must pass.
pub struct BlockValidator;

impl BlockValidator {
    pub fn new() -> (v: BlockValidator) {
        BlockValidator
    }

    /// Admit `block` if and only if it is admissible against the current
    /// tail, and then append it; the chain grows by exactly one. On failure
    /// the chain is unchanged, in length and in contents, and the error names
    /// the first check that failed. Run under the chain's lock, this is the
    /// sole serialization point for chain growth.
    pub fn validate_and_add_block(&self, block: Block, blockchain: &mut Blockchain) -> (r: Result<
        (),
        ValidationError,
    >)
        requires
            old(blockchain)@.len() > 0,
        ensures
            r is Ok <==> admissible(old(blockchain)@, block@),
            match r {
                Ok(()) => final(blockchain)@ == old(blockchain)@.push(block@),
                Err(e) => {
                    &&& final(blockchain)@ == old(blockchain)@
                    &&& (e == ValidationError::IndexMismatch <==> !index_ok(
                        old(blockchain)@,
                        block@,
                    ))
                    &&& (e == ValidationError::LinkageMismatch <==> index_ok(
                        old(blockchain)@,
                        block@,
                    ) && !linkage_ok(old(blockchain)@, block@))
                    &&& (e == ValidationError::InsufficientWork <==> index_ok(
                        old(blockchain)@,
                        block@,
                    ) && linkage_ok(old(blockchain)@, block@) && !pow_ok(block@.hash))
                },
            },
    {
        let last_index: u32;
        let linked: bool;
        {
            let last_block = match blockchain.last() {
                Some(b) => b,
                None => {
                    proof {
                        assert(false);
                    }
                    return Err(ValidationError::IndexMismatch);
                },
            };
            last_index = last_block.index;
            linked = bytes_eq(&block.previous_hash, &last_block.hash);
        }
        if !(block.index as u64 == last_index as u64 + 1) {
            return Err(ValidationError::IndexMismatch);
        }
        if !linked {
            return Err(ValidationError::LinkageMismatch);
        }
        if !has_pow(&block.hash) {
            return Err(ValidationError::InsufficientWork);
        }
        blockchain.add_block(block);
        Ok(())
    }
}

/// Chain integrity: every non-genesis entry stands at the position its index
/// names, names its predecessor's digest, and carries the required
/// proof-of-work prefix.
pub open spec fn chain_linked(s: Seq<BlockModel>) -> bool {
    forall|i: int|
        1 <= i < s.len() ==> {
            &&& (#[trigger] s[i]).index == i
            &&& s[i].previous_hash == s[i - 1].hash
            &&& pow_ok(s[i].hash)
        }
}

/// Admission preserves chain integrity: when an admissible candidate is
/// appended to a well-formed chain whose every entry extends its predecessor,
/// the grown chain's every entry still does.
pub proof fn lemma_admission_preserves_linkage(s: Seq<BlockModel>, b: BlockModel)
    requires
        crate::blockchain::chain_wf(s),
        chain_linked(s),
        admissible(s, b),
    ensures
        chain_linked(s.push(b)),
{
    let n = s.len() as int;
    if n > 1 {
        assert(s[n - 1].index == n - 1);
    }
    assert(s.push(b)[n] == b);
    assert forall|i: int| 1 <= i < n + 1 implies {
        &&& (#[trigger] s.push(b)[i]).index == i
        &&& s.push(b)[i].previous_hash == s.push(b)[i - 1].hash
        &&& pow_ok(s.push(b)[i].hash)
    } by {
        if i < n {
            assert(s.push(b)[i] == s[i]);
            assert(s.push(b)[i - 1] == s[i - 1]);
        } else {
            assert(s.push(b)[i - 1] == s[n - 1]);
        }
    }
}

/// Of any set of candidate blocks built against one tail, at most one append
/// can succeed: once one candidate is admitted, every other candidate
/// targeting the same index fails the continuity check against the advanced
/// tail, and so is refused.
pub proof fn lemma_single_append_per_index(s: Seq<BlockModel>, b: BlockModel, c: BlockModel)
    requires
        index_ok(s, b),
        index_ok(s, c),
    ensures
        !index_ok(s.push(b), c),
        !admissible(s.push(b), c),
{
    assert(s.push(b).last() == b);
}

} // verus!
