use vstd::prelude::*;
use vstd::bytes::{
    lemma_auto_spec_u32_to_from_le_bytes, lemma_auto_spec_u64_to_from_le_bytes,
    spec_u32_from_le_bytes, spec_u32_to_le_bytes, spec_u64_from_le_bytes, spec_u64_to_le_bytes,
    u32_from_le_bytes, u32_to_le_bytes, u64_from_le_bytes, u64_to_le_bytes,
};
use vstd::slice::{slice_subrange, slice_to_vec};
use crate::block::{txs_view, Block, BlockModel, Transaction, TxModel};

// The wire format of a block is a self-describing byte string: integers are
// fixed-width little-endian, byte strings carry an eight-byte length prefix,
// and the transaction batch carries an eight-byte count. A message is
// therefore self-delimiting, and a decoder can tell a whole message from a
// truncated or oversized one.

verus! {

/// The encoding of a byte string: its length, then its bytes.
pub open spec fn spec_bstr(v: Seq<u8>) -> Seq<u8> {
    spec_u64_to_le_bytes(v.len() as u64) + v
}

/// The encoding of one transaction: sender, receiver, amount.
pub open spec fn spec_encode_tx(t: TxModel) -> Seq<u8> {
    spec_bstr(t.sender) + spec_bstr(t.receiver) + spec_u64_to_le_bytes(t.amount)
}

/// The encoding of a batch: each transaction's encoding, in sequence order.
pub open spec fn spec_encode_txs(ts: Seq<TxModel>) -> Seq<u8>
    decreases ts.len(),
{
    if ts.len() == 0 {
        Seq::empty()
    } else {
        spec_encode_tx(ts[0]) + spec_encode_txs(ts.drop_first())
    }
}

/// The wire encoding of a block: index, timestamp, previous digest, digest,
/// transaction count, transactions, nonce.
pub open spec fn spec_encode(b: BlockModel) -> Seq<u8> {
    spec_u32_to_le_bytes(b.index) + spec_u64_to_le_bytes(b.timestamp) + spec_bstr(b.previous_hash)
        + spec_bstr(b.hash) + spec_u64_to_le_bytes(b.transactions.len() as u64) + spec_encode_txs(
        b.transactions,
    ) + spec_u64_to_le_bytes(b.nonce)
}

/// The transaction's variable-length fields fit their length prefixes.
pub open spec fn tx_wire_sized(t: TxModel) -> bool {
    t.sender.len() <= u64::MAX && t.receiver.len() <= u64::MAX
}

/// The block's variable-length fields fit their length prefixes.
pub open spec fn block_wire_sized(b: BlockModel) -> bool {
    &&& b.previous_hash.len() <= u64::MAX
    &&& b.hash.len() <= u64::MAX
    &&& b.transactions.len() <= u64::MAX
    &&& forall|i: int| 0 <= i < b.transactions.len() ==> tx_wire_sized(#[trigger] b.transactions[i])
}

/// Read a `u32` at position `i`, with the position after it.
pub open spec fn dec_u32_at(s: Seq<u8>, i: int) -> Option<(u32, int)> {
    if 0 <= i && i + 4 <= s.len() {
        Some((spec_u32_from_le_bytes(s.subrange(i, i + 4)), i + 4))
    } else {
        None
    }
}

/// Read a `u64` at position `i`, with the position after it.
pub open spec fn dec_u64_at(s: Seq<u8>, i: int) -> Option<(u64, int)> {
    if 0 <= i && i + 8 <= s.len() {
        Some((spec_u64_from_le_bytes(s.subrange(i, i + 8)), i + 8))
    } else {
        None
    }
}

/// Read a length-prefixed byte string at position `i`.
pub open spec fn dec_bstr_at(s: Seq<u8>, i: int) -> Option<(Seq<u8>, int)> {
    match dec_u64_at(s, i) {
        Some((n, j)) => if j + n as int <= s.len() {
            Some((s.subrange(j, j + n as int), j + n as int))
        } else {
            None
        },
        None => None,
    }
}

/// Read one transaction at position `i`.
pub open spec fn dec_tx_at(s: Seq<u8>, i: int) -> Option<(TxModel, int)> {
    match dec_bstr_at(s, i) {
        Some((sender, j)) => match dec_bstr_at(s, j) {
            Some((receiver, k)) => match dec_u64_at(s, k) {
                Some((amount, l)) => Some((TxModel { sender, receiver, amount }, l)),
                None => None,
            },
            None => None,
        },
        None => None,
    }
}

/// Read `count` transactions in order, starting at position `i`.
pub open spec fn dec_txs_at(s: Seq<u8>, i: int, count: nat) -> Option<(Seq<TxModel>, int)>
    decreases count,
{
    if count == 0 {
        Some((Seq::empty(), i))
    } else {
        match dec_tx_at(s, i) {
            Some((t, j)) => match dec_txs_at(s, j, (count - 1) as nat) {
                Some((rest, k)) => Some((seq![t] + rest, k)),
                None => None,
            },
            None => None,
        }
    }
}

/// What a whole message means: a block, provided every field reads back and
/// the message holds nothing more.
pub open spec fn spec_decode(s: Seq<u8>) -> Option<BlockModel> {
    match dec_u32_at(s, 0) {
        Some((index, i1)) => match dec_u64_at(s, i1) {
            Some((timestamp, i2)) => match dec_bstr_at(s, i2) {
                Some((previous_hash, i3)) => match dec_bstr_at(s, i3) {
                    Some((hash, i4)) => match dec_u64_at(s, i4) {
                        Some((count, i5)) => match dec_txs_at(s, i5, count as nat) {
                            Some((transactions, i6)) => match dec_u64_at(s, i6) {
                                Some((nonce, i7)) => if i7 == s.len() {
                                    Some(
                                        (BlockModel {
                                            index,
                                            timestamp,
                                            previous_hash,
                                            hash,
                                            transactions,
                                            nonce,
                                        }),
                                    )
                                } else {
                                    None
                                },
                                None => None,
                            },
                            None => None,
                        },
                        None => None,
                    },
                    None => None,
                },
                None => None,
            },
            None => None,
        },
        None => None,
    }
}

/// Append the length-prefixed encoding of `v`.
fn encode_bstr(out: &mut Vec<u8>, v: &Vec<u8>)
    ensures
        final(out)@ == old(out)@ + spec_bstr(v@),
{
    let mut lenb = u64_to_le_bytes(v.len() as u64);
    out.append(&mut lenb);
    out.extend_from_slice(v.as_slice());
    assert(out@ =~= old(out)@ + spec_bstr(v@));
}

/// Append the encoding of one transaction.
fn encode_tx(out: &mut Vec<u8>, t: &Transaction)
    ensures
        final(out)@ == old(out)@ + spec_encode_tx(t@),
{
    encode_bstr(out, &t.sender);
    encode_bstr(out, &t.receiver);
    let mut amt = u64_to_le_bytes(t.amount);
    out.append(&mut amt);
    assert(out@ =~= old(out)@ + spec_encode_tx(t@));
}

/// Encoding a batch one transaction longer appends that transaction's
/// encoding.
pub proof fn lemma_encode_txs_push(ts: Seq<TxModel>, t: TxModel)
    ensures
        spec_encode_txs(ts.push(t)) == spec_encode_txs(ts) + spec_encode_tx(t),
    decreases ts.len(),
{
    if ts.len() == 0 {
        assert(ts.push(t)[0] == t);
        assert(ts.push(t).drop_first() =~= Seq::<TxModel>::empty());
        assert(spec_encode_txs(ts.push(t).drop_first()) == Seq::<u8>::empty());
        assert(spec_encode_txs(ts) == Seq::<u8>::empty());
        assert(spec_encode_txs(ts.push(t)) == spec_encode_tx(t) + Seq::<u8>::empty());
        assert(spec_encode_txs(ts.push(t)) =~= spec_encode_txs(ts) + spec_encode_tx(t));
    } else {
        assert(ts.push(t)[0] == ts[0]);
        assert(ts.push(t).drop_first() =~= ts.drop_first().push(t));
        lemma_encode_txs_push(ts.drop_first(), t);
        assert(spec_encode_txs(ts.push(t)) == spec_encode_tx(ts[0]) + spec_encode_txs(
            ts.drop_first().push(t),
        ));
        assert(spec_encode_txs(ts.push(t)) =~= spec_encode_txs(ts) + spec_encode_tx(t));
    }
}

/// Encode `b` to its wire message.
#[verifier::loop_isolation(false)]
pub fn encode_block(b: &Block) -> (r: Vec<u8>)
    ensures
        r@ == spec_encode(b@),
{
    let mut out = u32_to_le_bytes(b.index);
    let mut ts = u64_to_le_bytes(b.timestamp);
    out.append(&mut ts);
    encode_bstr(&mut out, &b.previous_hash);
    encode_bstr(&mut out, &b.hash);
    let mut cnt = u64_to_le_bytes(b.transactions.len() as u64);
    out.append(&mut cnt);
    let ghost head = out@;
    let n = b.transactions.len();
    assert(txs_view(b.transactions@).take(0) =~= Seq::<TxModel>::empty());
    for i in 0..n
        invariant
            out@ == head + spec_encode_txs(txs_view(b.transactions@).take(i as int)),
    {
        encode_tx(&mut out, &b.transactions[i]);
        proof {
            assert(txs_view(b.transactions@).take(i + 1) =~= txs_view(b.transactions@).take(
                i as int,
            ).push(b.transactions@[i as int]@));
            lemma_encode_txs_push(
                txs_view(b.transactions@).take(i as int),
                b.transactions@[i as int]@,
            );
        }
    }
    assert(txs_view(b.transactions@).take(n as int) =~= txs_view(b.transactions@));
    let mut nn = u64_to_le_bytes(b.nonce);
    out.append(&mut nn);
    assert(out@ =~= spec_encode(b@));
    out
}

/// Read a `u32` at `pos`.
fn read_u32(bytes: &Vec<u8>, pos: usize) -> (r: Option<(u32, usize)>)
    ensures
        match r {
            Some(p) => dec_u32_at(bytes@, pos as int) == Some((p.0, p.1 as int)) && p.1
                <= bytes.len(),
            None => dec_u32_at(bytes@, pos as int) is None,
        },
{
    if pos <= bytes.len() && bytes.len() - pos >= 4 {
        let s = slice_subrange(bytes.as_slice(), pos, pos + 4);
        Some((u32_from_le_bytes(s), pos + 4))
    } else {
        None
    }
}

/// Read a `u64` at `pos`.
fn read_u64(bytes: &Vec<u8>, pos: usize) -> (r: Option<(u64, usize)>)
    ensures
        match r {
            Some(p) => dec_u64_at(bytes@, pos as int) == Some((p.0, p.1 as int)) && p.1
                <= bytes.len(),
            None => dec_u64_at(bytes@, pos as int) is None,
        },
{
    if pos <= bytes.len() && bytes.len() - pos >= 8 {
        let s = slice_subrange(bytes.as_slice(), pos, pos + 8);
        Some((u64_from_le_bytes(s), pos + 8))
    } else {
        None
    }
}

/// Read a length-prefixed byte string at `pos`.
fn read_bstr(bytes: &Vec<u8>, pos: usize) -> (r: Option<(Vec<u8>, usize)>)
    ensures
        match r {
            Some(p) => dec_bstr_at(bytes@, pos as int) == Some((p.0@, p.1 as int)) && p.1
                <= bytes.len(),
            None => dec_bstr_at(bytes@, pos as int) is None,
        },
{
    match read_u64(bytes, pos) {
        None => None,
        Some((n, j)) => {
            if n <= (bytes.len() - j) as u64 {
                let end = j + (n as usize);
                let s = slice_subrange(bytes.as_slice(), j, end);
                Some((slice_to_vec(s), end))
            } else {
                None
            }
        },
    }
}

/// Read one transaction at `pos`.
fn read_tx(bytes: &Vec<u8>, pos: usize) -> (r: Option<(Transaction, usize)>)
    ensures
        match r {
            Some(p) => dec_tx_at(bytes@, pos as int) == Some((p.0@, p.1 as int)) && p.1
                <= bytes.len(),
            None => dec_tx_at(bytes@, pos as int) is None,
        },
{
    match read_bstr(bytes, pos) {
        None => None,
        Some((sender, j)) => match read_bstr(bytes, j) {
            None => None,
            Some((receiver, k)) => match read_u64(bytes, k) {
                None => None,
                Some((amount, l)) => Some((Transaction { sender, receiver, amount }, l)),
            },
        },
    }
}

/// Read `count` transactions in order, starting at `pos`.
fn read_txs(bytes: &Vec<u8>, pos: usize, count: u64) -> (r: Option<(Vec<Transaction>, usize)>)
    requires
        pos <= bytes.len(),
    ensures
        match r {
            Some(p) => dec_txs_at(bytes@, pos as int, count as nat) == Some(
                (txs_view(p.0@), p.1 as int),
            ) && p.1 <= bytes.len(),
            None => dec_txs_at(bytes@, pos as int, count as nat) is None,
        },
    decreases count,
{
    if count == 0 {
        let r: Vec<Transaction> = Vec::new();
        assert(txs_view(r@) =~= Seq::<TxModel>::empty());
        Some((r, pos))
    } else {
        match read_tx(bytes, pos) {
            None => None,
            Some((t, j)) => {
                let ghost tm = t@;
                match read_txs(bytes, j, count - 1) {
                    None => None,
                    Some((mut rest, k)) => {
                        let ghost restv = txs_view(rest@);
                        rest.insert(0, t);
                        assert(txs_view(rest@) =~= seq![tm] + restv);
                        Some((rest, k))
                    },
                }
            },
        }
    }
}

/// Decode one whole wire message into a block; nothing short of a whole
/// well-formed message decodes.
pub fn decode_block(bytes: &Vec<u8>) -> (r: Option<Block>)
    ensures
        match r {
            Some(b) => spec_decode(bytes@) == Some(b@),
            None => spec_decode(bytes@) is None,
        },
{
    let (index, i1) = match read_u32(bytes, 0) {
        Some(p) => p,
        None => {
            return None;
        },
    };
    let (timestamp, i2) = match read_u64(bytes, i1) {
        Some(p) => p,
        None => {
            return None;
        },
    };
    let (previous_hash, i3) = match read_bstr(bytes, i2) {
        Some(p) => p,
        None => {
            return None;
        },
    };
    let (hash, i4) = match read_bstr(bytes, i3) {
        Some(p) => p,
        None => {
            return None;
        },
    };
    let (count, i5) = match read_u64(bytes, i4) {
        Some(p) => p,
        None => {
            return None;
        },
    };
    let (transactions, i6) = match read_txs(bytes, i5, count) {
        Some(p) => p,
        None => {
            return None;
        },
    };
    let (nonce, i7) = match read_u64(bytes, i6) {
        Some(p) => p,
        None => {
            return None;
        },
    };
    if i7 == bytes.len() {
        Some(Block { index, timestamp, previous_hash, hash, transactions, nonce })
    } else {
        None
    }
}

/// Reading a `u32` where one was encoded yields it back.
proof fn lemma_read_u32(pre: Seq<u8>, n: u32, suf: Seq<u8>)
    ensures
        dec_u32_at(pre + spec_u32_to_le_bytes(n) + suf, pre.len() as int) == Some(
            (n, pre.len() as int + 4),
        ),
{
    lemma_auto_spec_u32_to_from_le_bytes();
    let s = pre + spec_u32_to_le_bytes(n) + suf;
    assert(s.subrange(pre.len() as int, pre.len() as int + 4) =~= spec_u32_to_le_bytes(n));
}

/// Reading a `u64` where one was encoded yields it back.
proof fn lemma_read_u64(pre: Seq<u8>, n: u64, suf: Seq<u8>)
    ensures
        dec_u64_at(pre + spec_u64_to_le_bytes(n) + suf, pre.len() as int) == Some(
            (n, pre.len() as int + 8),
        ),
{
    lemma_auto_spec_u64_to_from_le_bytes();
    let s = pre + spec_u64_to_le_bytes(n) + suf;
    assert(s.subrange(pre.len() as int, pre.len() as int + 8) =~= spec_u64_to_le_bytes(n));
}

/// Reading a byte string where one was encoded yields it back.
proof fn lemma_read_bstr(pre: Seq<u8>, v: Seq<u8>, suf: Seq<u8>)
    requires
        v.len() <= u64::MAX,
    ensures
        dec_bstr_at(pre + spec_bstr(v) + suf, pre.len() as int) == Some(
            (v, pre.len() as int + 8 + v.len() as int),
        ),
{
    lemma_auto_spec_u64_to_from_le_bytes();
    let s = pre + spec_bstr(v) + suf;
    assert(s =~= pre + spec_u64_to_le_bytes(v.len() as u64) + (v + suf));
    lemma_read_u64(pre, v.len() as u64, v + suf);
    assert(s.subrange(pre.len() as int + 8, pre.len() as int + 8 + v.len() as int) =~= v);
}

/// Reading a transaction where one was encoded yields it back.
proof fn lemma_read_tx(pre: Seq<u8>, t: TxModel, suf: Seq<u8>)
    requires
        tx_wire_sized(t),
    ensures
        dec_tx_at(pre + spec_encode_tx(t) + suf, pre.len() as int) == Some(
            (t, pre.len() as int + spec_encode_tx(t).len() as int),
        ),
{
    lemma_auto_spec_u64_to_from_le_bytes();
    let s = pre + spec_encode_tx(t) + suf;
    assert(s =~= pre + spec_bstr(t.sender) + (spec_bstr(t.receiver) + spec_u64_to_le_bytes(t.amount)
        + suf));
    lemma_read_bstr(pre, t.sender, spec_bstr(t.receiver) + spec_u64_to_le_bytes(t.amount) + suf);
    let pre2 = pre + spec_bstr(t.sender);
    assert(s =~= pre2 + spec_bstr(t.receiver) + (spec_u64_to_le_bytes(t.amount) + suf));
    lemma_read_bstr(pre2, t.receiver, spec_u64_to_le_bytes(t.amount) + suf);
    let pre3 = pre2 + spec_bstr(t.receiver);
    assert(s =~= pre3 + spec_u64_to_le_bytes(t.amount) + suf);
    lemma_read_u64(pre3, t.amount, suf);
    assert(t == (TxModel { sender: t.sender, receiver: t.receiver, amount: t.amount }));
}

/// Reading a batch where one was encoded yields it back, in order.
proof fn lemma_read_txs(pre: Seq<u8>, ts: Seq<TxModel>, suf: Seq<u8>)
    requires
        forall|i: int| 0 <= i < ts.len() ==> tx_wire_sized(#[trigger] ts[i]),
    ensures
        dec_txs_at(pre + spec_encode_txs(ts) + suf, pre.len() as int, ts.len()) == Some(
            (ts, pre.len() as int + spec_encode_txs(ts).len() as int),
        ),
    decreases ts.len(),
{
    let s = pre + spec_encode_txs(ts) + suf;
    if ts.len() == 0 {
        assert(ts =~= Seq::<TxModel>::empty());
    } else {
        assert(s =~= pre + spec_encode_tx(ts[0]) + (spec_encode_txs(ts.drop_first()) + suf));
        lemma_read_tx(pre, ts[0], spec_encode_txs(ts.drop_first()) + suf);
        let pre2 = pre + spec_encode_tx(ts[0]);
        assert(s =~= pre2 + spec_encode_txs(ts.drop_first()) + suf);
        assert forall|i: int| 0 <= i < ts.drop_first().len() implies tx_wire_sized(
            #[trigger] ts.drop_first()[i],
        ) by {
            assert(ts.drop_first()[i] == ts[i + 1]);
        }
        lemma_read_txs(pre2, ts.drop_first(), suf);
        assert(seq![ts[0]] + ts.drop_first() =~= ts);
    }
}

/// Round trip: decoding the wire encoding of a block yields the block,
/// field for field.
pub proof fn lemma_codec_round_trip(b: BlockModel)
    requires
        block_wire_sized(b),
    ensures
        spec_decode(spec_encode(b)) == Some(b),
{
    lemma_auto_spec_u32_to_from_le_bytes();
    lemma_auto_spec_u64_to_from_le_bytes();
    let s = spec_encode(b);
    let e_idx = spec_u32_to_le_bytes(b.index);
    let e_ts = spec_u64_to_le_bytes(b.timestamp);
    let e_prev = spec_bstr(b.previous_hash);
    let e_hash = spec_bstr(b.hash);
    let e_cnt = spec_u64_to_le_bytes(b.transactions.len() as u64);
    let e_txs = spec_encode_txs(b.transactions);
    let e_n = spec_u64_to_le_bytes(b.nonce);
    let empty = Seq::<u8>::empty();

    assert(s =~= empty + e_idx + (e_ts + e_prev + e_hash + e_cnt + e_txs + e_n));
    lemma_read_u32(empty, b.index, e_ts + e_prev + e_hash + e_cnt + e_txs + e_n);

    assert(s =~= e_idx + e_ts + (e_prev + e_hash + e_cnt + e_txs + e_n));
    lemma_read_u64(e_idx, b.timestamp, e_prev + e_hash + e_cnt + e_txs + e_n);

    let p2 = e_idx + e_ts;
    assert(s =~= p2 + e_prev + (e_hash + e_cnt + e_txs + e_n));
    lemma_read_bstr(p2, b.previous_hash, e_hash + e_cnt + e_txs + e_n);

    let p3 = p2 + e_prev;
    assert(s =~= p3 + e_hash + (e_cnt + e_txs + e_n));
    lemma_read_bstr(p3, b.hash, e_cnt + e_txs + e_n);

    let p4 = p3 + e_hash;
    assert(s =~= p4 + e_cnt + (e_txs + e_n));
    lemma_read_u64(p4, b.transactions.len() as u64, e_txs + e_n);

    let p5 = p4 + e_cnt;
    assert(s =~= p5 + e_txs + e_n);
    lemma_read_txs(p5, b.transactions, e_n);

    let p6 = p5 + e_txs;
    assert(s =~= p6 + e_n + empty);
    lemma_read_u64(p6, b.nonce, empty);

    assert(p6.len() + 8 == s.len());
    assert(spec_decode(s) == Some(b));
}

} // verus!
