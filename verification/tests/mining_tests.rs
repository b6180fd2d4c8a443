use minichain::block::{Block, Transaction};
use minichain::blockchain::Blockchain;
use minichain::blockcreator::BlockCreator;
use minichain::blockvalidator::{BlockValidator, ValidationError};
use std::sync::Arc;

fn creator() -> BlockCreator {
    BlockCreator::new(Arc::new(BlockValidator::new()))
}

#[test]
fn mined_block_is_admitted() {
    let mut blockchain = Blockchain::new();
    let validator = BlockValidator::new();
    let previous_hash = blockchain.last().unwrap().hash.clone();
    let txs = vec![Transaction { sender: b"1".to_vec(), receiver: b"2".to_vec(), amount: 3 }];
    let block = creator()
        .mine_block(1, 42, txs, previous_hash, 1_000_000)
        .expect("a qualifying nonce should exist well within the attempt bound");
    assert!(block.hash.starts_with(b"00"));
    let r = validator.validate_and_add_block(block, &mut blockchain);
    assert_eq!(r, Ok(()));
    assert_eq!(blockchain.len(), 2);
}

#[test]
fn stale_candidate_is_rejected_after_an_admission() {
    let mut blockchain = Blockchain::new();
    let validator = BlockValidator::new();
    let previous_hash = blockchain.last().unwrap().hash.clone();

    // Two candidates built against the same tail, both targeting index 1.
    let first = creator()
        .mine_block(1, 1, Vec::new(), previous_hash.clone(), 1_000_000)
        .expect("a qualifying nonce should exist well within the attempt bound");
    let second = creator()
        .mine_block(1, 2, Vec::new(), previous_hash, 1_000_000)
        .expect("a qualifying nonce should exist well within the attempt bound");

    assert_eq!(validator.validate_and_add_block(first, &mut blockchain), Ok(()));
    // The tail has advanced: the second candidate now fails index continuity.
    let r = validator.validate_and_add_block(second, &mut blockchain);
    assert_eq!(r, Err(ValidationError::IndexMismatch));
    assert_eq!(blockchain.len(), 2);
}

#[test]
fn miner_selects_first_qualifying_nonce() {
    let found = creator()
        .mine_block(1, 9, Vec::new(), b"p".to_vec(), 1_000_000)
        .expect("a qualifying nonce should exist well within the attempt bound");
    assert!(found.hash.starts_with(b"00"));
    for nonce in 0..found.nonce {
        let mut earlier = Block::new(1, 9, Vec::new(), b"p".to_vec(), nonce);
        earlier.calculate_hash();
        assert!(!earlier.hash.starts_with(b"00")); // no smaller nonce qualifies
    }
}

#[test]
fn wrong_linkage_after_growth() {
    let mut blockchain = Blockchain::new();
    let validator = BlockValidator::new();
    let previous_hash = blockchain.last().unwrap().hash.clone();
    let grow = creator()
        .mine_block(1, 4, Vec::new(), previous_hash, 1_000_000)
        .expect("a qualifying nonce should exist well within the attempt bound");
    assert_eq!(validator.validate_and_add_block(grow, &mut blockchain), Ok(()));

    // Index 2 is right, but the predecessor digest is an arbitrary wrong value.
    let stray = creator()
        .mine_block(2, 5, Vec::new(), b"arbitrary wrong value".to_vec(), 1_000_000)
        .expect("a qualifying nonce should exist well within the attempt bound");
    let r = validator.validate_and_add_block(stray, &mut blockchain);
    assert_eq!(r, Err(ValidationError::LinkageMismatch));
    assert_eq!(blockchain.len(), 2);
}
