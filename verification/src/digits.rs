use vstd::prelude::*;

verus! {

/// The decimal digit string of `n`, as ASCII bytes (most significant first).
pub open spec fn dec_digits(n: nat) -> Seq<u8>
    decreases n,
{
    if n < 10 {
        seq![(n + 48) as u8]
    } else {
        dec_digits(n / 10) + seq![(n % 10 + 48) as u8]
    }
}

/// A decimal digit string is never empty.
pub proof fn lemma_dec_digits_nonempty(n: nat)
    ensures
        dec_digits(n).len() >= 1,
{
}

/// Render `n` in decimal as ASCII bytes.
pub fn u64_to_dec(n: u64) -> (r: Vec<u8>)
    ensures
        r@ == dec_digits(n as nat),
    decreases n,
{
    if n < 10 {
        let mut v: Vec<u8> = Vec::new();
        v.push((n as u8) + 48);
        assert(v@ =~= dec_digits(n as nat));
        v
    } else {
        let mut v = u64_to_dec(n / 10);
        v.push(((n % 10) as u8) + 48);
        assert(v@ =~= dec_digits(n as nat));
        v
    }
}

} // verus!
