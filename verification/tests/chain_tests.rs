use minichain::block::{Block, Transaction};
use minichain::blockchain::Blockchain;
use minichain::blockcreator::BlockCreator;
use minichain::blockvalidator::{BlockValidator, ValidationError};
use minichain::digits::u64_to_dec;
use std::sync::Arc;

#[test]
fn test_calculate_hash() {
    let transactions = vec![
        Transaction { sender: b"Alice".to_vec(), receiver: b"Bob".to_vec(), amount: 50 },
        Transaction { sender: b"Bob".to_vec(), receiver: b"Charlie".to_vec(), amount: 25 },
    ];
    let mut block = Block::new(0, 0, transactions, b"previous_hash".to_vec(), 0);
    block.calculate_hash();
    assert_eq!(block.hash.len(), 64); // SHA-256 always produces a 64 character string
}

#[test]
fn test_new_blockchain() {
    let blockchain = Blockchain::new();
    assert_eq!(blockchain.len(), 1); // Blockchain should be initialized with a genesis block
    assert_eq!(blockchain.block_at(0).transactions.len(), 0); // Genesis block has no transactions
}

#[test]
fn test_last() {
    let blockchain = Blockchain::new();
    assert_eq!(blockchain.last().unwrap().transactions.len(), 0); // Genesis block has no transactions
}

#[test]
fn test_add_block() {
    let mut blockchain = Blockchain::new();
    let transactions = vec![
        Transaction { sender: b"Alice".to_vec(), receiver: b"Bob".to_vec(), amount: 50 },
        Transaction { sender: b"Bob".to_vec(), receiver: b"Charlie".to_vec(), amount: 25 },
    ];
    let previous_hash = blockchain.last().unwrap().hash.clone();
    let block = Block::new(1, 7, transactions, previous_hash, 0);
    blockchain.add_block(block);

    assert_eq!(blockchain.len(), 2); // After adding a block, the blockchain length should be 2
}

#[test]
fn fresh_chain_holds_only_genesis() {
    let blockchain = Blockchain::new();
    assert_eq!(blockchain.len(), 1);
    let genesis = blockchain.block_at(0);
    assert_eq!(genesis.index, 0);
    assert_eq!(genesis.previous_hash, b"0".to_vec());
    assert!(genesis.transactions.is_empty());
    assert_eq!(genesis.nonce, 0);
    assert_eq!(genesis.hash.len(), 64);
}

#[test]
fn genesis_stays_at_position_zero() {
    let mut blockchain = Blockchain::new();
    let genesis_hash = blockchain.block_at(0).hash.clone();
    for i in 1..4u32 {
        let previous_hash = blockchain.last().unwrap().hash.clone();
        let mut block = Block::new(i, 100 + i as u64, Vec::new(), previous_hash, 0);
        block.calculate_hash();
        blockchain.add_block(block);
    }
    assert_eq!(blockchain.len(), 4);
    let genesis = blockchain.block_at(0);
    assert_eq!(genesis.index, 0);
    assert_eq!(genesis.previous_hash, b"0".to_vec());
    assert!(genesis.transactions.is_empty());
    assert_eq!(genesis.hash, genesis_hash);
}

#[test]
fn validator_rejects_wrong_index() {
    let mut blockchain = Blockchain::new();
    let validator = BlockValidator::new();
    let previous_hash = blockchain.last().unwrap().hash.clone();
    let mut block = Block::new(9, 5, Vec::new(), previous_hash, 0);
    block.calculate_hash();
    let r = validator.validate_and_add_block(block, &mut blockchain);
    assert_eq!(r, Err(ValidationError::IndexMismatch));
    assert_eq!(blockchain.len(), 1);
}

#[test]
fn validator_rejects_wrong_linkage() {
    let mut blockchain = Blockchain::new();
    let validator = BlockValidator::new();
    let mut block = Block::new(1, 5, Vec::new(), b"not the tail digest".to_vec(), 0);
    block.calculate_hash();
    let r = validator.validate_and_add_block(block, &mut blockchain);
    assert_eq!(r, Err(ValidationError::LinkageMismatch));
    assert_eq!(blockchain.len(), 1);
}

#[test]
fn validator_rejects_insufficient_work() {
    let mut blockchain = Blockchain::new();
    let validator = BlockValidator::new();
    let previous_hash = blockchain.last().unwrap().hash.clone();
    let mut block = Block::new(1, 5, Vec::new(), previous_hash, 0);
    block.hash = b"ff00 no leading zeros here".to_vec();
    let r = validator.validate_and_add_block(block, &mut blockchain);
    assert_eq!(r, Err(ValidationError::InsufficientWork));
    assert_eq!(blockchain.len(), 1);
}

#[test]
fn hash_is_deterministic_and_field_sensitive() {
    let txs = || {
        vec![Transaction { sender: b"7".to_vec(), receiver: b"8".to_vec(), amount: 50 }]
    };
    let mut a = Block::new(3, 11, txs(), b"p".to_vec(), 4);
    let mut b = Block::new(3, 11, txs(), b"p".to_vec(), 4);
    a.calculate_hash();
    b.calculate_hash();
    assert_eq!(a.hash, b.hash); // identical inputs, identical digests

    let mut c = Block::new(3, 11, txs(), b"p".to_vec(), 5);
    c.calculate_hash();
    assert_ne!(a.hash, c.hash); // a changed nonce changes the digest

    let mut d = Block::new(
        3,
        11,
        vec![Transaction { sender: b"7".to_vec(), receiver: b"8".to_vec(), amount: 51 }],
        b"p".to_vec(),
        4,
    );
    d.calculate_hash();
    assert_ne!(a.hash, d.hash); // a changed amount changes the digest

    let mut e = Block::new(4, 11, txs(), b"p".to_vec(), 4);
    e.calculate_hash();
    assert_ne!(a.hash, e.hash); // a changed index changes the digest
}

#[test]
fn generate_transactions_respects_ranges() {
    let creator = BlockCreator::new(Arc::new(BlockValidator::new()));
    for _ in 0..20 {
        let batch = creator.generate_transactions();
        assert!(1 <= batch.len() && batch.len() < 10);
        for t in &batch {
            assert!(1 <= t.amount && t.amount < 1000);
            assert!(!t.sender.is_empty());
            assert!(!t.receiver.is_empty());
            for d in t.sender.iter().chain(t.receiver.iter()) {
                assert!(*d >= 48 && *d <= 57); // decimal digits
            }
        }
    }
}

#[test]
fn u64_to_dec_exact_values() {
    assert_eq!(u64_to_dec(0), b"0".to_vec());
    assert_eq!(u64_to_dec(7), b"7".to_vec());
    assert_eq!(u64_to_dec(1234), b"1234".to_vec());
    assert_eq!(u64_to_dec(u64::MAX), b"18446744073709551615".to_vec());
}
