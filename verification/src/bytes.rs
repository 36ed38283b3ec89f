use vstd::prelude::*;

verus! {

/// The `n` low bytes of `v`, least significant first.
pub open spec fn le_bytes(v: nat, n: nat) -> Seq<u8>
    decreases n,
{
    if n == 0 {
        Seq::empty()
    } else {
        seq![(v % 256) as u8] + le_bytes(v / 256, (n - 1) as nat)
    }
}

/// The two's-complement reading of `v` in a word of `modulus` values.
pub open spec fn twos(v: int, modulus: int) -> nat {
    if v < 0 {
        (v + modulus) as nat
    } else {
        v as nat
    }
}

pub proof fn lemma_le_bytes_len(v: nat, n: nat)
    ensures
        le_bytes(v, n).len() == n,
    decreases n,
{
    if n > 0 {
        lemma_le_bytes_len(v / 256, (n - 1) as nat);
    }
}

/// Appends the `n` low bytes of `v` to `out`, least significant first.
pub fn push_le(out: &mut Vec<u8>, v: u64, n: usize)
    ensures
        final(out)@ == old(out)@ + le_bytes(v as nat, n as nat),
{
    let mut x: u64 = v;
    let mut i: usize = 0;
    while i < n
        invariant
            i <= n,
            out@ + le_bytes(x as nat, (n - i) as nat) == old(out)@ + le_bytes(v as nat, n as nat),
        decreases n - i,
    {
        let ghost before = out@;
        out.push((x % 256) as u8);
        assert(le_bytes(x as nat, (n - i) as nat) == seq![(x % 256) as u8] + le_bytes(
            (x / 256) as nat,
            (n - i - 1) as nat,
        ));
        assert(out@ + le_bytes((x / 256) as nat, (n - i - 1) as nat) =~= before + le_bytes(
            x as nat,
            (n - i) as nat,
        ));
        x = x / 256;
        i = i + 1;
    }
    assert(out@ + le_bytes(x as nat, 0) =~= out@);
}

/// The word of a signed 64-bit value read as unsigned.
pub fn signed_bits(v: i64) -> (r: u64)
    ensures
        r == twos(v as int, 0x1_0000_0000_0000_0000),
{
    if v >= 0 {
        v as u64
    } else {
        ((v + 1 + i64::MAX) as u64) + 0x8000_0000_0000_0000u64
    }
}

/// The number whose little-endian bytes are `b`.
pub open spec fn from_le(b: Seq<u8>) -> nat
    decreases b.len(),
{
    if b.len() == 0 {
        0
    } else {
        b[0] as nat + 256 * from_le(b.drop_first())
    }
}

/// Little-endian encoding loses nothing: reading the `n` bytes back gives `v` modulo `256^n`,
/// so every value below `256^n` is recovered exactly.
pub proof fn law_le_bytes_roundtrip(v: nat, n: nat)
    ensures
        from_le(le_bytes(v, n)) == v % vstd::arithmetic::power::pow(256, n) as nat,
    decreases n,
{
    let p = vstd::arithmetic::power::pow(256, n);
    vstd::arithmetic::power::lemma_pow_positive(256, n);
    if n == 0 {
        assert(p == 1) by {
            vstd::arithmetic::power::lemma_pow0(256);
        }
        assert(le_bytes(v, n) =~= Seq::<u8>::empty());
    } else {
        let q = vstd::arithmetic::power::pow(256, (n - 1) as nat);
        vstd::arithmetic::power::lemma_pow_positive(256, (n - 1) as nat);
        assert(p == 256 * q) by {
            vstd::arithmetic::power::lemma_pow_adds(256, 1, (n - 1) as nat);
            vstd::arithmetic::power::lemma_pow1(256);
        }
        law_le_bytes_roundtrip(v / 256, (n - 1) as nat);
        let b = le_bytes(v, n);
        assert(b.drop_first() =~= le_bytes(v / 256, (n - 1) as nat));
        assert(b[0] as nat == v % 256);
        vstd::arithmetic::div_mod::lemma_fundamental_div_mod(v as int, 256);
        vstd::arithmetic::div_mod::lemma_breakdown(v as int, 256, q);
    }
}

/// The powers of 256 that the word widths use.
pub proof fn lemma_pow256()
    ensures
        vstd::arithmetic::power::pow(256, 1) == 0x100,
        vstd::arithmetic::power::pow(256, 2) == 0x1_0000,
        vstd::arithmetic::power::pow(256, 4) == 0x1_0000_0000,
        vstd::arithmetic::power::pow(256, 8) == 0x1_0000_0000_0000_0000,
{
    reveal(vstd::arithmetic::power::pow);
    reveal_with_fuel(vstd::arithmetic::power::pow, 9);
}

/// Reading back `n` little-endian bytes of a value below `256^n` gives the value.
pub proof fn lemma_read_back(v: nat, n: nat)
    requires
        n == 1 || n == 2 || n == 4 || n == 8,
        v < vstd::arithmetic::power::pow(256, n),
    ensures
        from_le(le_bytes(v, n)) == v,
        le_bytes(v, n).len() == n,
{
    law_le_bytes_roundtrip(v, n);
    lemma_le_bytes_len(v, n);
    vstd::arithmetic::div_mod::lemma_small_mod(v, vstd::arithmetic::power::pow(256, n) as nat);
}

} // verus!
