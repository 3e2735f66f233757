//! Integers as the bytes of a register: byte order and two's complement.

use vstd::prelude::*;

use crate::elem_type::{Endianness, Sign};

verus! {

/// 256 to the power of `n`: the number of values that `n` bytes can hold.
pub open spec fn pow256(n: nat) -> nat
    decreases n,
{
    if n == 0 {
        1
    } else {
        256 * pow256((n - 1) as nat)
    }
}

/// The number that `bytes` hold, least significant byte first.
pub open spec fn le_value(bytes: Seq<u8>) -> nat
    decreases bytes.len(),
{
    if bytes.len() == 0 {
        0
    } else {
        bytes[0] as nat + 256 * le_value(bytes.skip(1))
    }
}

/// The `len` low bytes of `v`, least significant byte first.
pub open spec fn le_bytes(v: nat, len: nat) -> Seq<u8>
    decreases len,
{
    if len == 0 {
        Seq::empty()
    } else {
        seq![(v % 256) as u8] + le_bytes(v / 256, (len - 1) as nat)
    }
}

/// The unsigned number that `bytes` hold in the byte order `endianness`.
pub open spec fn unsigned_value(bytes: Seq<u8>, endianness: Endianness) -> nat {
    match endianness {
        Endianness::LE => le_value(bytes),
        Endianness::BE => le_value(bytes.reverse()),
    }
}

/// The `len` bytes that hold the unsigned number `v` in the byte order
/// `endianness`.
pub open spec fn unsigned_bytes(v: nat, len: nat, endianness: Endianness) -> Seq<u8> {
    match endianness {
        Endianness::LE => le_bytes(v, len),
        Endianness::BE => le_bytes(v, len).reverse(),
    }
}

/// The number that the unsigned number `u` of `len` bytes stands for in two's
/// complement.
pub open spec fn from_twos_complement(u: nat, len: nat) -> int {
    if 2 * u >= pow256(len) {
        u - pow256(len)
    } else {
        u as int
    }
}

/// The unsigned number of `len` bytes that stands for `v` in two's complement.
pub open spec fn to_twos_complement(v: int, len: nat) -> nat {
    if v < 0 {
        (v + pow256(len)) as nat
    } else {
        v as nat
    }
}

/// The smallest number that `len` bytes hold with the signedness `sign`.
pub open spec fn min_value(len: nat, sign: Sign) -> int {
    match sign {
        Sign::Signed => -(pow256(len) as int / 2),
        Sign::Unsigned => 0,
    }
}

/// The largest number that `len` bytes hold with the signedness `sign`.
pub open spec fn max_value(len: nat, sign: Sign) -> int {
    match sign {
        Sign::Signed => (pow256(len) as int - 1) / 2,
        Sign::Unsigned => pow256(len) as int - 1,
    }
}

/// The number that `bytes` hold in the byte order `endianness` and with the
/// signedness `sign`.
pub open spec fn int_value(bytes: Seq<u8>, endianness: Endianness, sign: Sign) -> int {
    match sign {
        Sign::Signed => from_twos_complement(unsigned_value(bytes, endianness), bytes.len()),
        Sign::Unsigned => unsigned_value(bytes, endianness) as int,
    }
}

/// The `len` bytes that hold the number `v` in the byte order `endianness`
/// and with the signedness `sign`.
pub open spec fn int_bytes(v: int, len: nat, endianness: Endianness, sign: Sign) -> Seq<u8> {
    match sign {
        Sign::Signed => unsigned_bytes(to_twos_complement(v, len), len, endianness),
        Sign::Unsigned => unsigned_bytes(v as nat, len, endianness),
    }
}

/// The powers of 256 that fit in 64 bits, and the first that does not.
pub proof fn lemma_pow256_values()
    ensures
        pow256(0) == 1,
        pow256(1) == 0x100,
        pow256(2) == 0x1_0000,
        pow256(3) == 0x100_0000,
        pow256(4) == 0x1_0000_0000,
        pow256(5) == 0x100_0000_0000,
        pow256(6) == 0x1_0000_0000_0000,
        pow256(7) == 0x100_0000_0000_0000,
        pow256(8) == 0x1_0000_0000_0000_0000,
{
    reveal_with_fuel(pow256, 10);
}

/// The powers of 256 grow with the exponent.
pub proof fn lemma_pow256_monotonic(a: nat, b: nat)
    requires
        a <= b,
    ensures
        0 < pow256(a) <= pow256(b),
    decreases b,
{
    if b == 0 {
    } else if a == b {
        lemma_pow256_monotonic(0, (b - 1) as nat);
    } else {
        lemma_pow256_monotonic(a, (b - 1) as nat);
    }
}

/// `len` bytes hold a number below 256 to the power of `len`.
pub proof fn lemma_le_value_bound(bytes: Seq<u8>)
    ensures
        le_value(bytes) < pow256(bytes.len()),
    decreases bytes.len(),
{
    if bytes.len() > 0 {
        lemma_le_value_bound(bytes.skip(1));
    }
}

/// `le_bytes` gives `len` bytes.
pub proof fn lemma_le_bytes_len(v: nat, len: nat)
    ensures
        le_bytes(v, len).len() == len,
    decreases len,
{
    if len > 0 {
        lemma_le_bytes_len(v / 256, (len - 1) as nat);
    }
}

/// Writing a number that fits and reading it back gives the number.
pub proof fn lemma_le_value_of_bytes(v: nat, len: nat)
    requires
        v < pow256(len),
    ensures
        le_value(le_bytes(v, len)) == v,
        le_bytes(v, len).len() == len,
    decreases len,
{
    lemma_le_bytes_len(v, len);
    if len > 0 {
        let b = le_bytes(v, len);
        let rest = le_bytes(v / 256, (len - 1) as nat);
        assert(b.skip(1) =~= rest);
        assert(b[0] == (v % 256) as u8);
        lemma_le_value_of_bytes(v / 256, (len - 1) as nat);
    }
}

/// Reading bytes and writing the number back gives the bytes.
pub proof fn lemma_le_bytes_of_value(bytes: Seq<u8>)
    ensures
        le_bytes(le_value(bytes), bytes.len()) == bytes,
    decreases bytes.len(),
{
    if bytes.len() > 0 {
        let v = le_value(bytes);
        let rest = le_value(bytes.skip(1));
        assert(v == bytes[0] as nat + 256 * rest);
        assert(v % 256 == bytes[0] as nat);
        assert(v / 256 == rest);
        lemma_le_bytes_of_value(bytes.skip(1));
        assert(le_bytes(v, bytes.len()) =~= bytes);
    } else {
        assert(le_bytes(le_value(bytes), bytes.len()) =~= bytes);
    }
}

/// Writing a number within the range of a register and reading it back
/// gives the number, in either byte order and with either signedness.
pub proof fn lemma_int_value_of_bytes(v: int, len: nat, endianness: Endianness, sign: Sign)
    requires
        min_value(len, sign) <= v <= max_value(len, sign),
    ensures
        int_bytes(v, len, endianness, sign).len() == len,
        int_value(int_bytes(v, len, endianness, sign), endianness, sign) == v,
{
    lemma_pow256_monotonic(0, len);
    let u: nat = match sign {
        Sign::Signed => to_twos_complement(v, len),
        Sign::Unsigned => v as nat,
    };
    assert(u < pow256(len));
    lemma_le_value_of_bytes(u, len);
    let b = le_bytes(u, len);
    assert(b.reverse().reverse() =~= b);
    assert(unsigned_value(unsigned_bytes(u, len, endianness), endianness) == u);
    assert(unsigned_bytes(u, len, endianness).len() == len);
}

/// Reading the bytes of a register and writing the number back gives the
/// bytes, in either byte order and with either signedness; and the number
/// lies within the range of the register.
pub proof fn lemma_int_bytes_of_value(bytes: Seq<u8>, endianness: Endianness, sign: Sign)
    ensures
        int_bytes(int_value(bytes, endianness, sign), bytes.len(), endianness, sign) == bytes,
        min_value(bytes.len(), sign) <= int_value(bytes, endianness, sign) <= max_value(
            bytes.len(),
            sign,
        ),
{
    let ordered = match endianness {
        Endianness::LE => bytes,
        Endianness::BE => bytes.reverse(),
    };
    lemma_le_value_bound(ordered);
    lemma_le_bytes_of_value(ordered);
    lemma_pow256_monotonic(0, bytes.len());
    let u = le_value(ordered);
    assert(ordered.len() == bytes.len());
    assert(to_twos_complement(from_twos_complement(u, bytes.len()), bytes.len()) == u);
    assert(bytes.reverse().reverse() =~= bytes);
}


/// 256 to the power of `len`, for up to eight bytes.
fn pow256_of(len: usize) -> (r: u128)
    requires
        len <= 8,
    ensures
        r == pow256(len as nat),
        0 < r <= 0x1_0000_0000_0000_0000,
{
    let mut r: u128 = 1;
    let mut i: usize = 0;
    while i < len
        invariant
            i <= len <= 8,
            r == pow256(i as nat),
            0 < r <= 0x1_0000_0000_0000_0000,
        decreases len - i,
    {
        proof {
            lemma_pow256_monotonic((i + 1) as nat, 8);
            lemma_pow256_values();
        }
        r = r * 256;
        i += 1;
    }
    r
}

/// The bytes `bytes` in reverse order.
fn reversed(bytes: &[u8]) -> (r: Vec<u8>)
    ensures
        r@ == bytes@.reverse(),
{
    let n = bytes.len();
    let mut r: Vec<u8> = Vec::new();
    let mut i: usize = 0;
    while i < n
        invariant
            i <= n,
            n == bytes@.len(),
            r@.len() == i,
            forall|k: int| 0 <= k < i ==> r@[k] == bytes@[n - 1 - k],
        decreases n - i,
    {
        r.push(bytes[n - 1 - i]);
        i += 1;
    }
    assert(r@ =~= bytes@.reverse());
    r
}

/// Reads `bytes`, least significant byte first.
fn decode_le(bytes: &[u8]) -> (r: u128)
    requires
        bytes@.len() <= 8,
    ensures
        r == le_value(bytes@),
        r < pow256(bytes@.len()),
{
    let n = bytes.len();
    let mut acc: u128 = 0;
    let mut i: usize = n;
    assert(bytes@.skip(n as int) =~= Seq::<u8>::empty());
    while i > 0
        invariant
            i <= n <= 8,
            n == bytes@.len(),
            acc == le_value(bytes@.skip(i as int)),
            acc < pow256((n - i) as nat),
        decreases i,
    {
        proof {
            let tail = bytes@.skip(i - 1);
            assert(tail.skip(1) =~= bytes@.skip(i as int));
            assert(tail[0] == bytes@[i - 1]);
            lemma_le_value_bound(tail);
            lemma_pow256_monotonic((n - i + 1) as nat, 8);
            lemma_pow256_values();
        }
        acc = acc * 256 + bytes[i - 1] as u128;
        i -= 1;
    }
    assert(bytes@.skip(0) =~= bytes@);
    acc
}

/// Writes the `len` low bytes of `v`, least significant byte first.
fn encode_le(v: u128, len: usize) -> (r: Vec<u8>)
    ensures
        r@ == le_bytes(v as nat, len as nat),
{
    let mut r: Vec<u8> = Vec::new();
    let mut cur = v;
    let mut i: usize = 0;
    assert(r@ + le_bytes(cur as nat, len as nat) =~= le_bytes(v as nat, len as nat));
    while i < len
        invariant
            i <= len,
            r@ + le_bytes(cur as nat, (len - i) as nat) == le_bytes(v as nat, len as nat),
        decreases len - i,
    {
        let ghost before = r@;
        let ghost tail = le_bytes(cur as nat, (len - i) as nat);
        let b = (cur % 256) as u8;
        r.push(b);
        proof {
            let next = le_bytes((cur / 256) as nat, (len - i - 1) as nat);
            assert(tail =~= seq![b] + next);
            assert(before + tail =~= before.push(b) + next);
        }
        cur = cur / 256;
        i += 1;
    }
    assert(r@ + le_bytes(cur as nat, 0) =~= r@);
    r
}

/// Reads up to eight bytes as an integer.
///
/// Returns `None` for more than eight bytes, and for a number that a signed
/// 64-bit integer cannot hold.
pub fn decode_int(bytes: &[u8], endianness: Endianness, sign: Sign) -> (r: Option<i64>)
    ensures
        r is Some <==> bytes@.len() <= 8 && int_value(bytes@, endianness, sign) <= i64::MAX,
        r matches Some(v) ==> v == int_value(bytes@, endianness, sign),
{
    if bytes.len() > 8 {
        return None;
    }
    let u = match endianness {
        Endianness::LE => decode_le(bytes),
        Endianness::BE => {
            let ordered = reversed(bytes);
            decode_le(ordered.as_slice())
        },
    };
    let p = pow256_of(bytes.len());
    proof {
        lemma_int_bytes_of_value(bytes@, endianness, sign);
        lemma_pow256_monotonic(bytes@.len(), 8);
        lemma_pow256_values();
    }
    let v: i128 = match sign {
        Sign::Signed => if 2 * u >= p {
            u as i128 - p as i128
        } else {
            u as i128
        },
        Sign::Unsigned => u as i128,
    };
    if v <= i64::MAX as i128 {
        Some(v as i64)
    } else {
        None
    }
}

/// Writes an integer as `len` bytes.
///
/// Returns `None` for more than eight bytes, and for a number outside the
/// range of `len` bytes with the signedness `sign`.
pub fn encode_int(v: i64, len: usize, endianness: Endianness, sign: Sign) -> (r: Option<Vec<u8>>)
    ensures
        r is Some <==> len <= 8 && min_value(len as nat, sign) <= v <= max_value(len as nat, sign),
        r matches Some(b) ==> b@ == int_bytes(v as int, len as nat, endianness, sign),
{
    if len > 8 {
        return None;
    }
    let p = pow256_of(len);
    let (min, max): (i128, i128) = match sign {
        Sign::Signed => (-(p as i128 / 2), (p as i128 - 1) / 2),
        Sign::Unsigned => (0, p as i128 - 1),
    };
    if (v as i128) < min || (v as i128) > max {
        return None;
    }
    let u: u128 = match sign {
        Sign::Signed => if v < 0 {
            (v as i128 + p as i128) as u128
        } else {
            v as u128
        },
        Sign::Unsigned => v as u128,
    };
    let le = encode_le(u, len);
    match endianness {
        Endianness::LE => Some(le),
        Endianness::BE => Some(reversed(le.as_slice())),
    }
}


/// Reads up to eight bytes as an unsigned integer; `None` for more bytes.
pub fn decode_unsigned(bytes: &[u8], endianness: Endianness) -> (r: Option<u64>)
    ensures
        r is Some <==> bytes@.len() <= 8,
        r matches Some(v) ==> v == unsigned_value(bytes@, endianness) && v < pow256(bytes@.len()),
{
    if bytes.len() > 8 {
        return None;
    }
    let u = match endianness {
        Endianness::LE => decode_le(bytes),
        Endianness::BE => {
            let ordered = reversed(bytes);
            decode_le(ordered.as_slice())
        },
    };
    proof {
        lemma_pow256_monotonic(bytes@.len(), 8);
        lemma_pow256_values();
    }
    Some(u as u64)
}

/// Writes an unsigned integer as `len` bytes; `None` for more than eight
/// bytes, and for a number that `len` bytes cannot hold.
pub fn encode_unsigned(v: u64, len: usize, endianness: Endianness) -> (r: Option<Vec<u8>>)
    ensures
        r is Some <==> len <= 8 && v < pow256(len as nat),
        r matches Some(b) ==> b@ == unsigned_bytes(v as nat, len as nat, endianness) && b@.len()
            == len,
{
    if len > 8 {
        return None;
    }
    let p = pow256_of(len);
    if v as u128 >= p {
        return None;
    }
    let le = encode_le(v as u128, len);
    proof {
        lemma_le_bytes_len(v as nat, len as nat);
    }
    match endianness {
        Endianness::LE => Some(le),
        Endianness::BE => Some(reversed(le.as_slice())),
    }
}

} // verus!
