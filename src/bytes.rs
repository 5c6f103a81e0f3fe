use vstd::prelude::*;

verus! {

/// The value of a little-endian byte sequence: the first byte is the least
/// significant.
pub open spec fn le_value(b: Seq<u8>) -> nat
    decreases b.len(),
{
    if b.len() == 0 {
        0
    } else {
        b[0] as nat + 256 * le_value(b.drop_first())
    }
}

/// The `n` least significant bytes of `v`, in little-endian order.
pub open spec fn le_bytes(v: nat, n: nat) -> Seq<u8>
    decreases n,
{
    if n == 0 {
        Seq::empty()
    } else {
        seq![(v % 256) as u8] + le_bytes(v / 256, (n - 1) as nat)
    }
}

/// `256` raised to the power `n`.
pub open spec fn pow256(n: nat) -> nat
    decreases n,
{
    if n == 0 {
        1
    } else {
        256 * pow256((n - 1) as nat)
    }
}

/// Encoding to `n` bytes yields `n` bytes.
pub proof fn lemma_le_bytes_len(v: nat, n: nat)
    ensures
        le_bytes(v, n).len() == n,
    decreases n,
{
    if n > 0 {
        lemma_le_bytes_len(v / 256, (n - 1) as nat);
    }
}

/// Reading back the `n` bytes of a value below `256^n` gives the value.
pub proof fn lemma_le_value_of_bytes(v: nat, n: nat)
    requires
        v < pow256(n),
    ensures
        le_value(le_bytes(v, n)) == v,
    decreases n,
{
    if n > 0 {
        let p = pow256((n - 1) as nat);
        let rest = le_bytes(v / 256, (n - 1) as nat);
        assert(v / 256 < p) by (nonlinear_arith)
            requires
                v < 256 * p,
        ;
        lemma_le_value_of_bytes(v / 256, (n - 1) as nat);
        let whole = seq![(v % 256) as u8] + rest;
        assert(whole.drop_first() =~= rest);
        assert(v == v % 256 + 256 * (v / 256)) by (nonlinear_arith);
    }
}

/// A little-endian value of `n` bytes is below `256^n`.
pub proof fn lemma_le_value_bound(b: Seq<u8>)
    ensures
        le_value(b) < pow256(b.len()),
    decreases b.len(),
{
    if b.len() > 0 {
        lemma_le_value_bound(b.drop_first());
        let r = le_value(b.drop_first());
        let p = pow256((b.len() - 1) as nat);
        let x = b[0] as nat;
        assert(x + 256 * r < 256 * p) by (nonlinear_arith)
            requires
                x < 256,
                r < p,
        ;
    }
}

/// Eight bytes always read back to a value that fits in a `u64`.
pub proof fn lemma_le_value_fits_u64(b: Seq<u8>)
    requires
        b.len() == 8,
    ensures
        le_value(b) <= u64::MAX,
{
    reveal_with_fuel(pow256, 9);
    lemma_le_value_bound(b);
}

/// Every `u64` fits in eight bytes, and its eight bytes read back to it.
pub proof fn lemma_u64_bytes_round_trip(v: u64)
    ensures
        le_bytes(v as nat, 8).len() == 8,
        le_value(le_bytes(v as nat, 8)) == v as nat,
{
    reveal_with_fuel(pow256, 9);
    assert(pow256(8) == 0x1_0000_0000_0000_0000nat);
    lemma_le_bytes_len(v as nat, 8);
    lemma_le_value_of_bytes(v as nat, 8);
}

/// `256^n` grows with `n`.
pub proof fn lemma_pow256_monotone(m: nat, n: nat)
    requires
        m <= n,
    ensures
        pow256(m) <= pow256(n),
    decreases n,
{
    if m < n {
        lemma_pow256_monotone(m, (n - 1) as nat);
    }
}

/// Reads eight bytes as a little-endian `u64`.
pub fn u64_from_le(b: &[u8]) -> (r: u64)
    requires
        b@.len() == 8,
    ensures
        r as nat == le_value(b@),
{
    let mut acc: u64 = 0;
    let mut i: usize = 8;
    assert(b@.subrange(8, 8) =~= Seq::<u8>::empty());
    while i > 0
        invariant
            i <= 8,
            b@.len() == 8,
            acc as nat == le_value(b@.subrange(i as int, 8)),
        decreases i,
    {
        let ghost rest = b@.subrange(i as int, 8);
        let ghost next = b@.subrange(i - 1, 8);
        proof {
            assert(next.drop_first() =~= rest);
            lemma_le_value_bound(next);
            lemma_pow256_monotone(next.len(), 8);
            reveal_with_fuel(pow256, 9);
        }
        acc = acc * 256 + b[i - 1] as u64;
        i = i - 1;
    }
    assert(b@.subrange(0, 8) =~= b@);
    acc
}

/// Relies on `borsh::to_vec` for `u64`, which writes `u64::to_le_bytes` into
/// a `Vec` (a writer that never fails): the eight little-endian bytes of `v`.
#[verifier::external_body]
pub(crate) fn u64_to_bytes(v: u64) -> (r: Vec<u8>)
    ensures
        r@ == le_bytes(v as nat, 8),
{
    match borsh::to_vec(&v) {
        Ok(b) => b,
        Err(_) => Vec::new(),
    }
}

/// Relies on `borsh::from_slice` for `u64`: it reads exactly eight bytes with
/// `u64::from_le_bytes` and fails when fewer are given or any are left over.
#[verifier::external_body]
pub(crate) fn u64_from_bytes(b: &[u8]) -> (r: Option<u64>)
    ensures
        r.is_some() <==> b@.len() == 8,
        r.is_some() ==> r.unwrap() as nat == le_value(b@),
{
    borsh::from_slice::<u64>(b).ok()
}

} // verus!
