use minichain::block::{Block, Transaction};
use minichain::codec::{decode_block, encode_block};

fn sample_block() -> Block {
    let mut b = Block::new(
        7,
        1_700_000_000,
        vec![
            Transaction { sender: b"Alice".to_vec(), receiver: b"Bob".to_vec(), amount: 50 },
            Transaction { sender: b"Bob".to_vec(), receiver: b"Charlie".to_vec(), amount: 25 },
        ],
        b"00aa".to_vec(),
        99,
    );
    b.calculate_hash();
    b
}

#[test]
fn round_trip_is_field_equal() {
    let b = sample_block();
    let wire = encode_block(&b);
    let d = decode_block(&wire).expect("a whole message decodes");
    assert_eq!(d.index, b.index);
    assert_eq!(d.timestamp, b.timestamp);
    assert_eq!(d.previous_hash, b.previous_hash);
    assert_eq!(d.hash, b.hash);
    assert_eq!(d.nonce, b.nonce);
    assert_eq!(d.transactions.len(), b.transactions.len());
    for (x, y) in d.transactions.iter().zip(b.transactions.iter()) {
        assert_eq!(x.sender, y.sender);
        assert_eq!(x.receiver, y.receiver);
        assert_eq!(x.amount, y.amount);
    }
}

#[test]
fn encoding_exact_bytes() {
    let b = Block::new(1, 2, Vec::new(), b"0".to_vec(), 3);
    let wire = encode_block(&b);
    let expected: Vec<u8> = vec![
        1, 0, 0, 0, // index, four bytes little-endian
        2, 0, 0, 0, 0, 0, 0, 0, // timestamp
        1, 0, 0, 0, 0, 0, 0, 0, 48, // previous digest: length 1, then "0"
        0, 0, 0, 0, 0, 0, 0, 0, // digest: length 0 (not yet computed)
        0, 0, 0, 0, 0, 0, 0, 0, // transaction count 0
        3, 0, 0, 0, 0, 0, 0, 0, // nonce
    ];
    assert_eq!(wire, expected);
}

#[test]
fn truncated_message_does_not_decode() {
    let wire = encode_block(&sample_block());
    for cut in 0..wire.len() {
        let partial = wire[..cut].to_vec();
        assert!(decode_block(&partial).is_none());
    }
}

#[test]
fn trailing_bytes_do_not_decode() {
    let mut wire = encode_block(&sample_block());
    wire.push(0);
    assert!(decode_block(&wire).is_none());
}
