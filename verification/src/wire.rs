//! Byte-level helpers shared by the protocol modules: big-endian integer
//! encoding, ASCII decimal rendering, and small verified vector utilities.

use vstd::prelude::*;

verus! {

/// Value of a two-byte big-endian sequence.
pub open spec fn be_val2(b: Seq<u8>) -> nat
    recommends
        b.len() == 2,
{
    (b[0] as nat) * 0x100 + (b[1] as nat)
}

/// Value of an eight-byte big-endian sequence.
pub open spec fn be_val8(b: Seq<u8>) -> nat
    recommends
        b.len() == 8,
{
    (b[0] as nat) * 0x100000000000000 + (b[1] as nat) * 0x1000000000000 + (b[2] as nat)
        * 0x10000000000 + (b[3] as nat) * 0x100000000 + (b[4] as nat) * 0x1000000 + (b[5] as nat)
        * 0x10000 + (b[6] as nat) * 0x100 + (b[7] as nat)
}

/// Two-byte big-endian encoding of `n`.
pub open spec fn be2(n: nat) -> Seq<u8>
    recommends
        n < 0x10000,
{
    seq![(n / 0x100 % 0x100) as u8, (n % 0x100) as u8]
}

/// Eight-byte big-endian encoding of `n`.
pub open spec fn be8(n: nat) -> Seq<u8>
    recommends
        n < 0x10000000000000000,
{
    seq![
        (n / 0x100000000000000 % 0x100) as u8,
        (n / 0x1000000000000 % 0x100) as u8,
        (n / 0x10000000000 % 0x100) as u8,
        (n / 0x100000000 % 0x100) as u8,
        (n / 0x1000000 % 0x100) as u8,
        (n / 0x10000 % 0x100) as u8,
        (n / 0x100 % 0x100) as u8,
        (n % 0x100) as u8,
    ]
}

/// Decoding a two-byte encoding yields the encoded value back.
pub proof fn lemma_be2_round_trip(n: nat)
    requires
        n < 0x10000,
    ensures
        be_val2(be2(n)) == n,
{
    vstd::arithmetic::div_mod::lemma_fundamental_div_mod(n as int, 0x100);
}

/// Decoding an eight-byte encoding yields the encoded value back.
pub proof fn lemma_be8_round_trip(n: nat)
    requires
        n < 0x10000000000000000,
    ensures
        be_val8(be8(n)) == n,
{
    let x = n as int;
    vstd::arithmetic::div_mod::lemma_fundamental_div_mod(x, 0x100);
    vstd::arithmetic::div_mod::lemma_div_denominator(x, 0x100, 0x100);
    vstd::arithmetic::div_mod::lemma_fundamental_div_mod(x / 0x100, 0x100);
    vstd::arithmetic::div_mod::lemma_div_denominator(x, 0x10000, 0x100);
    vstd::arithmetic::div_mod::lemma_fundamental_div_mod(x / 0x10000, 0x100);
    vstd::arithmetic::div_mod::lemma_div_denominator(x, 0x1000000, 0x100);
    vstd::arithmetic::div_mod::lemma_fundamental_div_mod(x / 0x1000000, 0x100);
    vstd::arithmetic::div_mod::lemma_div_denominator(x, 0x100000000, 0x100);
    vstd::arithmetic::div_mod::lemma_fundamental_div_mod(x / 0x100000000, 0x100);
    vstd::arithmetic::div_mod::lemma_div_denominator(x, 0x10000000000, 0x100);
    vstd::arithmetic::div_mod::lemma_fundamental_div_mod(x / 0x10000000000, 0x100);
    vstd::arithmetic::div_mod::lemma_div_denominator(x, 0x1000000000000, 0x100);
    vstd::arithmetic::div_mod::lemma_fundamental_div_mod(x / 0x1000000000000, 0x100);
    vstd::arithmetic::div_mod::lemma_fundamental_div_mod(x, 0x100000000000000);
    vstd::arithmetic::div_mod::lemma_mod_bound(x, 0x100000000000000);
    assert(x / 0x100000000000000 < 0x100);
    lemma_small_mod_int(x / 0x100000000000000, 0x100);
}

proof fn lemma_small_mod_int(x: int, m: int)
    requires
        0 <= x < m,
    ensures
        x % m == x,
{
    vstd::arithmetic::div_mod::lemma_small_mod(x as nat, m as nat);
}

/// Reads the two-byte big-endian integer at `off`.
pub fn read_be_u16(b: &Vec<u8>, off: usize) -> (r: u16)
    requires
        off + 2 <= b@.len(),
    ensures
        r as nat == be_val2(b@.subrange(off as int, off as int + 2)),
{
    let _n = b.len();
    (b[off] as u16) * 0x100 + (b[off + 1] as u16)
}

/// Reads the eight-byte big-endian integer at `off`.
pub fn read_be_u64(b: &Vec<u8>, off: usize) -> (r: u64)
    requires
        off + 8 <= b@.len(),
    ensures
        r as nat == be_val8(b@.subrange(off as int, off as int + 8)),
{
    let _n = b.len();
    (b[off] as u64) * 0x100000000000000 + (b[off + 1] as u64) * 0x1000000000000 + (b[off + 2]
        as u64) * 0x10000000000 + (b[off + 3] as u64) * 0x100000000 + (b[off + 4] as u64) * 0x1000000
        + (b[off + 5] as u64) * 0x10000 + (b[off + 6] as u64) * 0x100 + (b[off + 7] as u64)
}

/// ASCII decimal digits of `n`, most significant first.
pub open spec fn dec_u(n: nat) -> Seq<u8>
    decreases n,
{
    if n < 10 {
        seq![(48 + n) as u8]
    } else {
        dec_u(n / 10) + seq![(48 + n % 10) as u8]
    }
}

/// ASCII decimal rendering of a signed value: a leading minus sign when
/// negative, then the digits of the absolute value.
pub open spec fn dec_i(c: int) -> Seq<u8> {
    if c < 0 {
        seq![45u8] + dec_u((-c) as nat)
    } else {
        dec_u(c as nat)
    }
}

/// The reversal of a byte sequence.
pub open spec fn rev_bytes(s: Seq<u8>) -> Seq<u8> {
    Seq::new(s.len(), |i: int| s[s.len() - 1 - i])
}

/// Renders `n` as ASCII decimal digits.
pub fn u64_dec(n: u64) -> (r: Vec<u8>)
    ensures
        r@ == dec_u(n as nat),
{
    let mut digits: Vec<u8> = Vec::new();
    let mut m: u64 = n;
    while m >= 10
        invariant
            dec_u(n as nat) == dec_u(m as nat) + rev_bytes(digits@),
        decreases m,
    {
        let d: u8 = 48 + (m % 10) as u8;
        let ghost prev = digits@;
        digits.push(d);
        m = m / 10;
        proof {
            assert(rev_bytes(prev.push(d)) =~= seq![d] + rev_bytes(prev));
        }
    }
    let d: u8 = 48 + (m % 10) as u8;
    let ghost prev = digits@;
    digits.push(d);
    proof {
        assert(m % 10 == m as int);
        assert(rev_bytes(prev.push(d)) =~= seq![d] + rev_bytes(prev));
        assert(dec_u(n as nat) == rev_bytes(digits@));
    }
    let mut r: Vec<u8> = Vec::new();
    let total = digits.len();
    let mut k: usize = 0;
    while k < total
        invariant
            total == digits@.len(),
            k <= total,
            r@ == rev_bytes(digits@).take(k as int),
        decreases total - k,
    {
        r.push(digits[total - 1 - k]);
        k += 1;
        proof {
            assert(r@ =~= rev_bytes(digits@).take(k as int));
        }
    }
    proof {
        assert(r@ =~= rev_bytes(digits@));
    }
    r
}

/// Renders a signed value as ASCII decimal.
pub fn i32_dec(c: i32) -> (r: Vec<u8>)
    ensures
        r@ == dec_i(c as int),
{
    if c < 0 {
        let mag: u64 = (-(c as i64)) as u64;
        let mut r: Vec<u8> = Vec::new();
        r.push(45);
        let digits = u64_dec(mag);
        let mut k: usize = 0;
        while k < digits.len()
            invariant
                k <= digits@.len(),
                r@ == seq![45u8] + digits@.take(k as int),
            decreases digits@.len() - k,
        {
            r.push(digits[k]);
            k += 1;
            proof {
                assert(r@ =~= seq![45u8] + digits@.take(k as int));
            }
        }
        proof {
            assert(digits@.take(digits@.len() as int) =~= digits@);
        }
        r
    } else {
        u64_dec(c as u64)
    }
}

/// Appends all of `b` to `v`.
pub fn append_bytes(v: &mut Vec<u8>, b: &[u8])
    ensures
        final(v)@ == old(v)@ + b@,
{
    let mut i: usize = 0;
    while i < b.len()
        invariant
            i <= b@.len(),
            v@ == old(v)@ + b@.take(i as int),
        decreases b@.len() - i,
    {
        v.push(b[i]);
        i += 1;
        proof {
            assert(v@ =~= old(v)@ + b@.take(i as int));
        }
    }
    proof {
        assert(old(v)@ + b@.take(b@.len() as int) =~= old(v)@ + b@);
    }
}

/// Copies `v[from..to]` into a fresh vector.
pub fn copy_range(v: &Vec<u8>, from: usize, to: usize) -> (r: Vec<u8>)
    requires
        from <= to <= v@.len(),
    ensures
        r@ == v@.subrange(from as int, to as int),
{
    let mut r: Vec<u8> = Vec::new();
    let mut i: usize = from;
    while i < to
        invariant
            from <= i <= to <= v@.len(),
            r@ == v@.subrange(from as int, i as int),
        decreases to - i,
    {
        r.push(v[i]);
        i += 1;
        proof {
            assert(r@ =~= v@.subrange(from as int, i as int));
        }
    }
    r
}

/// Byte-wise equality of two slices.
pub fn bytes_eq(a: &[u8], b: &[u8]) -> (r: bool)
    ensures
        r == (a@ == b@),
{
    if a.len() != b.len() {
        return false;
    }
    let mut i: usize = 0;
    while i < a.len()
        invariant
            a@.len() == b@.len(),
            i <= a@.len(),
            forall|j: int| 0 <= j < i ==> a@[j] == b@[j],
        decreases a@.len() - i,
    {
        if a[i] != b[i] {
            return false;
        }
        i += 1;
    }
    proof {
        assert(a@ =~= b@);
    }
    true
}

/// Clones a vector of strings element by element.
pub fn clone_strings(v: &Vec<String>) -> (r: Vec<String>)
    ensures
        r@ == v@,
{
    let mut r: Vec<String> = Vec::new();
    let mut i: usize = 0;
    while i < v.len()
        invariant
            i <= v@.len(),
            r@ == v@.take(i as int),
        decreases v@.len() - i,
    {
        r.push(v[i].clone());
        i += 1;
        proof {
            assert(r@ =~= v@.take(i as int));
        }
    }
    proof {
        assert(v@.take(v@.len() as int) =~= v@);
    }
    r
}

} // verus!
