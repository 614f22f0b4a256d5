//! Fixed-width big-endian signed integers, as PostgreSQL's binary format
//! writes them.

use vstd::prelude::*;

verus! {

/// `256^n`.
pub open spec fn pow256(n: nat) -> nat
    decreases n,
{
    if n == 0 {
        1
    } else {
        256 * pow256((n - 1) as nat)
    }
}

/// The `n` lowest base-256 digits of `u`, most significant first.
pub open spec fn be_bytes(u: nat, n: nat) -> Seq<u8>
    decreases n,
{
    if n == 0 {
        Seq::empty()
    } else {
        be_bytes(u / 256, (n - 1) as nat).push((u % 256) as u8)
    }
}

/// The unsigned number whose big-endian digits are `s`.
pub open spec fn be_nat(s: Seq<u8>) -> nat
    decreases s.len(),
{
    if s.len() == 0 {
        0
    } else {
        be_nat(s.drop_last()) * 256 + s.last() as nat
    }
}

/// The `n`-byte two's-complement big-endian representation of `v`.
pub open spec fn be_signed_bytes(v: int, n: nat) -> Seq<u8> {
    be_bytes((if v < 0 { v + pow256(n) } else { v }) as nat, n)
}

/// The signed number that the two's-complement big-endian bytes `s` hold.
pub open spec fn be_signed_value(s: Seq<u8>) -> int {
    let u = be_nat(s);
    if 2 * u >= pow256(s.len()) {
        u - pow256(s.len())
    } else {
        u as int
    }
}

/// Why a byte slice could not be read as a wire value.
#[derive(Clone, Copy, Debug, PartialEq, Eq, Structural)]
pub enum DecodeError {
    /// The value has a fixed width and the slice is not of that width.
    InvalidLength { expected: usize, actual: usize },
}

proof fn lemma_pow256_positive(n: nat)
    ensures
        pow256(n) >= 1,
    decreases n,
{
    if n > 0 {
        lemma_pow256_positive((n - 1) as nat);
    }
}

proof fn lemma_pow256_monotone(a: nat, b: nat)
    requires
        a <= b,
    ensures
        pow256(a) <= pow256(b),
    decreases b,
{
    if a < b {
        lemma_pow256_monotone(a, (b - 1) as nat);
        lemma_pow256_positive((b - 1) as nat);
    }
}

pub proof fn lemma_pow256_values()
    ensures
        pow256(4) == 0x1_0000_0000,
        pow256(8) == 0x1_0000_0000_0000_0000,
{
    reveal_with_fuel(pow256, 9);
}

/// Reading back the digits of a number that fits in `n` bytes gives the number.
pub proof fn lemma_be_nat_of_bytes(u: nat, n: nat)
    requires
        u < pow256(n),
    ensures
        be_bytes(u, n).len() == n,
        be_nat(be_bytes(u, n)) == u,
    decreases n,
{
    if n > 0 {
        let p = pow256((n - 1) as nat);
        assert(u / 256 < p) by (nonlinear_arith)
            requires
                u < 256 * p,
        ;
        lemma_be_nat_of_bytes(u / 256, (n - 1) as nat);
        let s = be_bytes(u, n);
        assert(s.drop_last() =~= be_bytes(u / 256, (n - 1) as nat));
        assert(u == (u / 256) * 256 + u % 256);
    }
}

/// Encoding a signed integer in `n` bytes and reading it back yields the
/// integer, for every integer that `n` bytes can hold.
pub proof fn lemma_be_signed_round_trip(v: int, n: nat)
    requires
        n >= 1,
        -pow256(n) <= 2 * v < pow256(n),
    ensures
        be_signed_bytes(v, n).len() == n,
        be_signed_value(be_signed_bytes(v, n)) == v,
{
    let u = if v < 0 { v + pow256(n) } else { v };
    lemma_be_nat_of_bytes(u as nat, n);
}

/// Bytes read as a number and written back in as many bytes are the same
/// bytes.
pub proof fn lemma_bytes_of_be_nat(s: Seq<u8>)
    ensures
        be_nat(s) < pow256(s.len()),
        be_bytes(be_nat(s), s.len()) == s,
    decreases s.len(),
{
    if s.len() > 0 {
        let init = s.drop_last();
        lemma_bytes_of_be_nat(init);
        let u = be_nat(s);
        let a = be_nat(init);
        let b = s.last() as nat;
        assert(u / 256 == a && u % 256 == b) by {
            vstd::arithmetic::div_mod::lemma_fundamental_div_mod_converse(
                u as int,
                256,
                a as int,
                b as int,
            );
        }
        assert(a * 256 + b < 256 * pow256(init.len())) by (nonlinear_arith)
            requires
                a < pow256(init.len()),
                b < 256,
        ;
        assert(be_bytes(u, s.len()) =~= s);
    }
}

/// Signed bytes read as a number and written back in as many bytes are the
/// same bytes.
pub proof fn lemma_be_signed_bytes_of_value(s: Seq<u8>)
    requires
        s.len() >= 1,
    ensures
        -pow256(s.len()) <= 2 * be_signed_value(s) < pow256(s.len()),
        be_signed_bytes(be_signed_value(s), s.len()) == s,
{
    lemma_bytes_of_be_nat(s);
}

/// Reads the big-endian unsigned number held by at most eight bytes.
fn read_be(raw: &[u8]) -> (r: u64)
    requires
        raw@.len() <= 8,
    ensures
        r == be_nat(raw@),
        r < pow256(raw@.len()),
{
    let mut acc: u64 = 0;
    let mut i: usize = 0;
    while i < raw.len()
        invariant
            i <= raw@.len() <= 8,
            acc == be_nat(raw@.take(i as int)),
            acc < pow256(i as nat),
        decreases raw@.len() - i,
    {
        proof {
            lemma_pow256_monotone((i + 1) as nat, 8);
            lemma_pow256_values();
            assert(raw@.take(i + 1).drop_last() =~= raw@.take(i as int));
            let p = pow256(i as nat);
            let a = acc as int;
            let b = raw@[i as int] as int;
            assert(a * 256 + b < 256 * p) by (nonlinear_arith)
                requires
                    a < p,
                    0 <= b < 256,
            ;
        }
        acc = acc * 256 + raw[i] as u64;
        i = i + 1;
    }
    assert(raw@.take(i as int) =~= raw@);
    acc
}

/// Appends the `n` lowest base-256 digits of `u`, most significant first.
fn push_be(u: u64, n: usize, buf: &mut Vec<u8>)
    ensures
        final(buf)@ == old(buf)@ + be_bytes(u as nat, n as nat),
    decreases n,
{
    if n > 0 {
        push_be(u / 256, n - 1, buf);
        buf.push((u % 256) as u8);
        assert(final(buf)@ =~= old(buf)@ + be_bytes(u as nat, n as nat));
    } else {
        assert(final(buf)@ =~= old(buf)@ + be_bytes(u as nat, n as nat));
    }
}

/// Appends the four big-endian bytes of `v`.
pub fn encode_i32(v: i32, buf: &mut Vec<u8>)
    ensures
        final(buf)@ == old(buf)@ + be_signed_bytes(v as int, 4),
{
    proof {
        lemma_pow256_values();
    }
    let u: u64 = if v < 0 {
        (v as i64 + 0x1_0000_0000i64) as u64
    } else {
        v as u64
    };
    push_be(u, 4, buf);
}

/// Appends the eight big-endian bytes of `v`.
pub fn encode_i64(v: i64, buf: &mut Vec<u8>)
    ensures
        final(buf)@ == old(buf)@ + be_signed_bytes(v as int, 8),
{
    proof {
        lemma_pow256_values();
    }
    let u: u64 = if v < 0 {
        (v - i64::MIN) as u64 + 0x8000_0000_0000_0000u64
    } else {
        v as u64
    };
    push_be(u, 8, buf);
}

/// Reads a signed 32-bit integer from exactly four big-endian bytes.
pub fn decode_i32(raw: &[u8]) -> (r: Result<i32, DecodeError>)
    ensures
        raw@.len() == 4 ==> r == Ok::<i32, DecodeError>(be_signed_value(raw@) as i32),
        raw@.len() == 4 ==> i32::MIN <= be_signed_value(raw@) <= i32::MAX,
        raw@.len() != 4 ==> r == Err::<i32, DecodeError>(
            DecodeError::InvalidLength { expected: 4, actual: raw@.len() as usize },
        ),
{
    if raw.len() != 4 {
        return Err(DecodeError::InvalidLength { expected: 4, actual: raw.len() });
    }
    proof {
        lemma_pow256_values();
    }
    let u = read_be(raw);
    if u >= 0x8000_0000u64 {
        Ok((u as i64 - 0x1_0000_0000i64) as i32)
    } else {
        Ok(u as i32)
    }
}

/// Reads a signed 64-bit integer from exactly eight big-endian bytes.
pub fn decode_i64(raw: &[u8]) -> (r: Result<i64, DecodeError>)
    ensures
        raw@.len() == 8 ==> r == Ok::<i64, DecodeError>(be_signed_value(raw@) as i64),
        raw@.len() == 8 ==> i64::MIN <= be_signed_value(raw@) <= i64::MAX,
        raw@.len() != 8 ==> r == Err::<i64, DecodeError>(
            DecodeError::InvalidLength { expected: 8, actual: raw@.len() as usize },
        ),
{
    if raw.len() != 8 {
        return Err(DecodeError::InvalidLength { expected: 8, actual: raw.len() });
    }
    proof {
        lemma_pow256_values();
    }
    let u = read_be(raw);
    if u >= 0x8000_0000_0000_0000u64 {
        Ok((u - 0x8000_0000_0000_0000u64) as i64 + i64::MIN)
    } else {
        Ok(u as i64)
    }
}

} // verus!
