//! Reading numbers from the text of elements and attributes.

use vstd::prelude::*;
use vstd::string::*;

verus! {

/// Value of the character `c` as a digit in `radix`, if it is one.
pub open spec fn digit_of(c: char, radix: int) -> Option<int> {
    let d: int = if '0' <= c <= '9' {
        c as int - 48
    } else if 'a' <= c <= 'f' {
        c as int - 87
    } else if 'A' <= c <= 'F' {
        c as int - 55
    } else {
        -1
    };
    if 0 <= d < radix {
        Some(d)
    } else {
        None
    }
}

/// Every character of `s` is a digit in `radix`.
pub open spec fn all_digits(s: Seq<char>, radix: int) -> bool {
    forall|i: int| 0 <= i < s.len() ==> (#[trigger] digit_of(s[i], radix)) is Some
}

/// The number that the digits `s` denote in `radix`, most significant digit first.
pub open spec fn digits_value(s: Seq<char>, radix: int) -> int
    decreases s.len(),
{
    if s.len() == 0 {
        0
    } else {
        digits_value(s.drop_last(), radix) * radix + digit_of(s.last(), radix).unwrap()
    }
}

/// The number that a non-empty run of digits denotes, if it fits in 64 bits.
pub open spec fn digits_u64(s: Seq<char>, radix: int) -> Option<u64> {
    if s.len() > 0 && all_digits(s, radix) && digits_value(s, radix) <= u64::MAX {
        Some(digits_value(s, radix) as u64)
    } else {
        None
    }
}

/// Whether `s` starts with the prefix of a hexadecimal literal.
pub open spec fn has_hex_prefix(s: Seq<char>) -> bool {
    s.len() >= 2 && s[0] == '0' && (s[1] == 'x' || s[1] == 'X')
}

/// Meaning of an unsigned literal: decimal digits, or hexadecimal digits
/// behind `0x` or `0X`; nothing else, and no more than 64 bits.
pub open spec fn spec_uint_of_text(s: Seq<char>) -> Option<u64> {
    if has_hex_prefix(s) {
        digits_u64(s.skip(2), 16)
    } else {
        digits_u64(s, 10)
    }
}

/// Meaning of a signed literal: a decimal number with an optional minus sign
/// that fits in a signed 64-bit integer, or a hexadecimal literal of up to 64
/// bits taken as two's complement.
pub open spec fn spec_int_of_text(s: Seq<char>) -> Option<i64> {
    if s.len() >= 1 && s[0] == '-' {
        match digits_u64(s.skip(1), 10) {
            Some(m) => if m <= 0x8000_0000_0000_0000 {
                Some((-(m as int)) as i64)
            } else {
                None
            },
            None => None,
        }
    } else if has_hex_prefix(s) {
        match digits_u64(s.skip(2), 16) {
            Some(m) => if m <= i64::MAX {
                Some(m as i64)
            } else {
                Some((m - 0x1_0000_0000_0000_0000) as i64)
            },
            None => None,
        }
    } else {
        match digits_u64(s, 10) {
            Some(m) => if m <= i64::MAX {
                Some(m as i64)
            } else {
                None
            },
            None => None,
        }
    }
}

/// A run of digits is worth at least as much as any of its prefixes.
proof fn lemma_prefix_value(s: Seq<char>, k: int, radix: int)
    requires
        0 <= k <= s.len(),
        all_digits(s, radix),
        radix >= 2,
    ensures
        0 <= digits_value(s.take(k), radix) <= digits_value(s, radix),
    decreases s.len() - k,
{
    if k == s.len() {
        assert(s.take(k) =~= s);
        lemma_value_nonneg(s, radix);
    } else {
        lemma_prefix_value(s, k + 1, radix);
        let t = s.take(k + 1);
        assert(t.drop_last() =~= s.take(k));
        assert(t.last() == s[k]);
        assert(digit_of(s[k], radix) is Some);
        assert(all_digits(s.take(k), radix)) by {
            assert forall|i: int| 0 <= i < s.take(k).len() implies (#[trigger] digit_of(
                s.take(k)[i],
                radix,
            )) is Some by {
                assert(s.take(k)[i] == s[i]);
            }
        }
        lemma_value_nonneg(s.take(k), radix);
        let v = digits_value(s.take(k), radix);
        assert(v * radix >= v) by (nonlinear_arith)
            requires
                v >= 0,
                radix >= 2,
        ;
    }
}

/// A run of digits denotes a non-negative number.
proof fn lemma_value_nonneg(s: Seq<char>, radix: int)
    requires
        all_digits(s, radix),
        radix >= 2,
    ensures
        digits_value(s, radix) >= 0,
    decreases s.len(),
{
    if s.len() > 0 {
        assert(all_digits(s.drop_last(), radix)) by {
            assert forall|i: int| 0 <= i < s.drop_last().len() implies (#[trigger] digit_of(
                s.drop_last()[i],
                radix,
            )) is Some by {
                assert(s.drop_last()[i] == s[i]);
            }
        }
        lemma_value_nonneg(s.drop_last(), radix);
        assert(digit_of(s.last(), radix) is Some);
        let v = digits_value(s.drop_last(), radix);
        assert(v * radix >= 0) by (nonlinear_arith)
            requires
                v >= 0,
                radix >= 2,
        ;
    }
}

/// Value of an ASCII byte as a digit in `radix`.
fn digit_of_byte(b: u8, radix: u64) -> (r: Option<u64>)
    requires
        radix == 10 || radix == 16,
        b < 128,
    ensures
        r is Some <==> digit_of(b as char, radix as int) is Some,
        r matches Some(d) ==> d == digit_of(b as char, radix as int).unwrap() && d < radix,
{
    let d: u64 = if 48 <= b && b <= 57 {
        (b - 48) as u64
    } else if 97 <= b && b <= 102 {
        (b - 87) as u64
    } else if 65 <= b && b <= 70 {
        (b - 55) as u64
    } else {
        return None;
    };
    if d < radix {
        Some(d)
    } else {
        None
    }
}

/// Reads the digits of `s` from position `start` to its end.
fn parse_digits(s: &str, start: usize, radix: u64) -> (r: Option<u64>)
    requires
        s.is_ascii(),
        start <= s@.len(),
        radix == 10 || radix == 16,
    ensures
        r == digits_u64(s@.skip(start as int), radix as int),
{
    let n = s.unicode_len();
    if start == n {
        return None;
    }
    let ghost whole = s@.skip(start as int);
    let mut acc: u64 = 0;
    let mut i: usize = start;
    while i < n
        invariant
            start <= i <= n,
            n == s@.len(),
            s.is_ascii(),
            radix == 10 || radix == 16,
            whole == s@.skip(start as int),
            all_digits(whole.take(i - start), radix as int),
            acc == digits_value(whole.take(i - start), radix as int),
        decreases n - i,
    {
        let b = s.get_ascii(i);
        let ghost c = s@[i as int];
        assert(whole[i - start] == c);
        assert(b as char == c);
        let ghost next = whole.take(i - start + 1);
        assert(next.drop_last() =~= whole.take(i - start));
        assert(next.last() == c);
        match digit_of_byte(b, radix) {
            None => {
                assert(!all_digits(whole, radix as int));
                return None;
            },
            Some(d) => {
                assert(all_digits(next, radix as int)) by {
                    assert forall|j: int| 0 <= j < next.len() implies (#[trigger] digit_of(
                        next[j],
                        radix as int,
                    )) is Some by {
                        if j < i - start {
                            assert(next[j] == whole.take(i - start)[j]);
                        }
                    }
                }
                proof {
                    if all_digits(whole, radix as int) {
                        lemma_prefix_value(whole, i - start + 1, radix as int);
                    }
                }
                let shifted = match acc.checked_mul(radix) {
                    Some(v) => v,
                    None => {
                        return None;
                    },
                };
                acc = match shifted.checked_add(d) {
                    Some(v) => v,
                    None => {
                        return None;
                    },
                };
            },
        }
        i += 1;
    }
    assert(whole.take(n - start) =~= whole);
    Some(acc)
}

/// Whether the ASCII text `s` starts with `0x` or `0X`.
fn starts_with_hex_prefix(s: &str) -> (r: bool)
    requires
        s.is_ascii(),
    ensures
        r == has_hex_prefix(s@),
{
    if s.unicode_len() < 2 {
        return false;
    }
    let b0 = s.get_ascii(0);
    let b1 = s.get_ascii(1);
    assert(b0 as char == s@[0]);
    assert(b1 as char == s@[1]);
    b0 == 48 && (b1 == 120 || b1 == 88)
}

/// Reads a run of hexadecimal digits without a prefix.
pub fn parse_hex_digits(s: &str) -> (r: Option<u64>)
    ensures
        r == digits_u64(s@, 16),
{
    if !s.is_ascii() {
        proof {
            lemma_digits_are_ascii(s@, 16);
        }
        return None;
    }
    assert(s@.skip(0) =~= s@);
    parse_digits(s, 0, 16)
}

/// Reads an unsigned number.
pub fn convert_to_uint(s: &str) -> (r: Option<u64>)
    ensures
        r == spec_uint_of_text(s@),
{
    if !s.is_ascii() {
        proof {
            lemma_digits_are_ascii(s@, 10);
            if has_hex_prefix(s@) {
                lemma_hex_is_ascii(s@);
            }
        }
        return None;
    }
    if starts_with_hex_prefix(s) {
        parse_digits(s, 2, 16)
    } else {
        assert(s@.skip(0) =~= s@);
        parse_digits(s, 0, 10)
    }
}

/// Reads a signed number.
pub fn convert_to_int(s: &str) -> (r: Option<i64>)
    ensures
        r == spec_int_of_text(s@),
{
    if !s.is_ascii() {
        proof {
            lemma_digits_are_ascii(s@, 10);
            if has_hex_prefix(s@) {
                lemma_hex_is_ascii(s@);
            }
            if s@.len() >= 1 && s@[0] == '-' {
                lemma_signed_is_ascii(s@);
            }
        }
        return None;
    }
    let n = s.unicode_len();
    if n >= 1 && s.get_ascii(0) == 45 {
        assert(s@[0] == '-');
        match parse_digits(s, 1, 10) {
            Some(m) => {
                if m <= 0x8000_0000_0000_0000 {
                    if m == 0x8000_0000_0000_0000 {
                        Some(i64::MIN)
                    } else {
                        Some(-(m as i64))
                    }
                } else {
                    None
                }
            },
            None => None,
        }
    } else if starts_with_hex_prefix(s) {
        assert(n >= 1 ==> s@[0] != '-');
        match parse_digits(s, 2, 16) {
            Some(m) => {
                if m <= 0x7fff_ffff_ffff_ffff {
                    Some(m as i64)
                } else {
                    Some((m - 0x8000_0000_0000_0000) as i64 + i64::MIN)
                }
            },
            None => None,
        }
    } else {
        assert(n >= 1 ==> s@[0] != '-');
        assert(s@.skip(0) =~= s@);
        match parse_digits(s, 0, 10) {
            Some(m) => {
                if m <= 0x7fff_ffff_ffff_ffff {
                    Some(m as i64)
                } else {
                    None
                }
            },
            None => None,
        }
    }
}

/// A run of digits holds ASCII characters only.
proof fn lemma_digits_are_ascii(s: Seq<char>, radix: int)
    requires
        !is_ascii_chars_of(s),
        radix <= 16,
    ensures
        !all_digits(s, radix),
{
    let i = choose|i: int| 0 <= i < s.len() && !('\0' <= #[trigger] s[i] <= '\u{7f}');
    assert(digit_of(s[i], radix) is None);
}

/// A hexadecimal literal holds ASCII characters only.
proof fn lemma_hex_is_ascii(s: Seq<char>)
    requires
        !is_ascii_chars_of(s),
        has_hex_prefix(s),
    ensures
        !all_digits(s.skip(2), 16),
{
    let i = choose|i: int| 0 <= i < s.len() && !('\0' <= #[trigger] s[i] <= '\u{7f}');
    assert(i >= 2);
    assert(s.skip(2)[i - 2] == s[i]);
    assert(digit_of(s.skip(2)[i - 2], 16) is None);
}

/// A decimal number behind a minus sign holds ASCII characters only.
proof fn lemma_signed_is_ascii(s: Seq<char>)
    requires
        !is_ascii_chars_of(s),
        s.len() >= 1,
        s[0] == '-',
    ensures
        !all_digits(s.skip(1), 10),
{
    let i = choose|i: int| 0 <= i < s.len() && !('\0' <= #[trigger] s[i] <= '\u{7f}');
    assert(i >= 1);
    assert(s.skip(1)[i - 1] == s[i]);
    assert(digit_of(s.skip(1)[i - 1], 10) is None);
}

/// Every character of `s` is an ASCII character.
pub open spec fn is_ascii_chars_of(s: Seq<char>) -> bool {
    forall|i: int| 0 <= i < s.len() ==> '\0' <= #[trigger] s[i] <= '\u{7f}'
}


/// The character that stands for the digit `d`.
pub open spec fn digit_char(d: int) -> char {
    if d < 10 {
        (48 + d) as char
    } else {
        (87 + d) as char
    }
}

/// The digits of `v` in `radix`, most significant digit first.
pub open spec fn spec_digits(v: nat, radix: nat) -> Seq<char>
    decreases v,
{
    if radix == 16 {
        if v < 16 {
            seq![digit_char(v as int)]
        } else {
            spec_digits(v / 16, 16).push(digit_char((v % 16) as int))
        }
    } else {
        if v < 10 {
            seq![digit_char(v as int)]
        } else {
            spec_digits(v / 10, 10).push(digit_char((v % 10) as int))
        }
    }
}

/// The decimal text of the unsigned number `v`.
pub open spec fn spec_uint_text(v: u64) -> Seq<char> {
    spec_digits(v as nat, 10)
}

/// The decimal text of the signed number `v`.
pub open spec fn spec_int_text(v: i64) -> Seq<char> {
    if v >= 0 {
        spec_digits(v as nat, 10)
    } else {
        seq!['-'] + spec_digits((-(v as int)) as nat, 10)
    }
}

/// The digits of a number are digits, start with no sign, hold no `x`, and
/// denote the number.
pub proof fn lemma_digits(v: nat, radix: nat)
    requires
        radix == 10 || radix == 16,
    ensures
        spec_digits(v, radix).len() > 0,
        all_digits(spec_digits(v, radix), radix as int),
        digits_value(spec_digits(v, radix), radix as int) == v,
        forall|i: int|
            0 <= i < spec_digits(v, radix).len() ==> (#[trigger] spec_digits(v, radix)[i]) != 'x'
                && spec_digits(v, radix)[i] != 'X' && spec_digits(v, radix)[i] != '-',
    decreases v,
{
    let r = spec_digits(v, radix);
    if v < radix {
        assert(r.drop_last() =~= Seq::<char>::empty());
        assert(digits_value(r.drop_last(), radix as int) == 0);
        assert(r.last() == digit_char(v as int));
        assert(digit_of(digit_char(v as int), radix as int) == Some(v as int));
    } else {
        let before = spec_digits(v / radix, radix);
        lemma_digits(v / radix, radix);
        let d = (v % radix) as int;
        if radix == 10 {
            assert(v == (v / 10) * 10 + v % 10);
        } else {
            assert(v == (v / 16) * 16 + v % 16);
        }
        assert(r.drop_last() =~= before);
        assert(r.last() == digit_char(d));
        assert(digit_of(digit_char(d), radix as int) == Some(d));
        assert forall|i: int| 0 <= i < r.len() implies (#[trigger] digit_of(
            r[i],
            radix as int,
        )) is Some by {
            if i < before.len() {
                assert(r[i] == before[i]);
                assert(digit_of(before[i], radix as int) is Some);
            }
        }
        assert forall|i: int| 0 <= i < r.len() implies (#[trigger] r[i]) != 'x' && r[i] != 'X'
            && r[i] != '-' by {
            if i < before.len() {
                assert(r[i] == before[i]);
            }
        }
    }
}

/// The text of a number reads back as the number.
pub proof fn lemma_number_texts_read_back(u: u64, v: i64)
    ensures
        spec_uint_of_text(spec_uint_text(u)) == Some(u),
        spec_int_of_text(spec_int_text(v)) == Some(v),
        digits_u64(spec_digits(u as nat, 16), 16) == Some(u),
{
    lemma_digits(u as nat, 10);
    lemma_digits(u as nat, 16);
    let t = spec_uint_text(u);
    if t.len() > 1 {
        assert(t[1] != 'x' && t[1] != 'X');
    }
    if v >= 0 {
        lemma_digits(v as nat, 10);
        let s = spec_int_text(v);
        assert(s[0] != '-');
        if s.len() > 1 {
            assert(s[1] != 'x' && s[1] != 'X');
        }
    } else {
        let m = (-(v as int)) as nat;
        lemma_digits(m, 10);
        let s = spec_int_text(v);
        assert(s[0] == '-');
        assert(s.skip(1) =~= spec_digits(m, 10));
    }
}

/// The text of the digit `d`.
fn digit_text(d: u8) -> (r: &'static str)
    requires
        d < 16,
    ensures
        r@ == seq![digit_char(d as int)],
{
    match d {
        0 => {
            proof {
                reveal_strlit("0");
                assert("0"@ =~= seq!['0']);
                assert("0"@[0] == '0');
            }
            "0"
        },
        1 => {
            proof {
                reveal_strlit("1");
                assert("1"@ =~= seq!['1']);
                assert("1"@[0] == '1');
            }
            "1"
        },
        2 => {
            proof {
                reveal_strlit("2");
                assert("2"@ =~= seq!['2']);
                assert("2"@[0] == '2');
            }
            "2"
        },
        3 => {
            proof {
                reveal_strlit("3");
                assert("3"@ =~= seq!['3']);
                assert("3"@[0] == '3');
            }
            "3"
        },
        4 => {
            proof {
                reveal_strlit("4");
                assert("4"@ =~= seq!['4']);
                assert("4"@[0] == '4');
            }
            "4"
        },
        5 => {
            proof {
                reveal_strlit("5");
                assert("5"@ =~= seq!['5']);
                assert("5"@[0] == '5');
            }
            "5"
        },
        6 => {
            proof {
                reveal_strlit("6");
                assert("6"@ =~= seq!['6']);
                assert("6"@[0] == '6');
            }
            "6"
        },
        7 => {
            proof {
                reveal_strlit("7");
                assert("7"@ =~= seq!['7']);
                assert("7"@[0] == '7');
            }
            "7"
        },
        8 => {
            proof {
                reveal_strlit("8");
                assert("8"@ =~= seq!['8']);
                assert("8"@[0] == '8');
            }
            "8"
        },
        9 => {
            proof {
                reveal_strlit("9");
                assert("9"@ =~= seq!['9']);
                assert("9"@[0] == '9');
            }
            "9"
        },
        10 => {
            proof {
                reveal_strlit("a");
                assert("a"@ =~= seq!['a']);
                assert("a"@[0] == 'a');
            }
            "a"
        },
        11 => {
            proof {
                reveal_strlit("b");
                assert("b"@ =~= seq!['b']);
                assert("b"@[0] == 'b');
            }
            "b"
        },
        12 => {
            proof {
                reveal_strlit("c");
                assert("c"@ =~= seq!['c']);
                assert("c"@[0] == 'c');
            }
            "c"
        },
        13 => {
            proof {
                reveal_strlit("d");
                assert("d"@ =~= seq!['d']);
                assert("d"@[0] == 'd');
            }
            "d"
        },
        14 => {
            proof {
                reveal_strlit("e");
                assert("e"@ =~= seq!['e']);
                assert("e"@[0] == 'e');
            }
            "e"
        },
        _ => {
            proof {
                reveal_strlit("f");
                assert("f"@ =~= seq!['f']);
                assert("f"@[0] == 'f');
            }
            "f"
        },
    }
}

/// The digits of `v` in `radix`, most significant digit first.
fn digits_text(v: u64, radix: u64) -> (r: String)
    requires
        radix == 10 || radix == 16,
    ensures
        r@ == spec_digits(v as nat, radix as nat),
    decreases v,
{
    let d = digit_text((v % radix) as u8);
    if v < radix {
        d.to_owned()
    } else {
        let mut r = digits_text(v / radix, radix);
        let ghost before = r@;
        r.append(d);
        assert(r@ =~= before.push(digit_char((v % radix) as int)));
        r
    }
}

/// The decimal text of `v`, which reads back as `v`.
pub fn uint_to_text(v: u64) -> (r: String)
    ensures
        r@ == spec_uint_text(v),
        spec_uint_of_text(r@) == Some(v),
{
    proof {
        lemma_number_texts_read_back(v, 0);
    }
    digits_text(v, 10)
}

/// The hexadecimal digits of `v` without a prefix, which read back as `v`.
pub fn hex_digits_text(v: u64) -> (r: String)
    ensures
        r@ == spec_digits(v as nat, 16),
        digits_u64(r@, 16) == Some(v),
{
    proof {
        lemma_number_texts_read_back(v, 0);
    }
    digits_text(v, 16)
}

/// The decimal text of `v`, which reads back as `v`.
pub fn int_to_text(v: i64) -> (r: String)
    ensures
        r@ == spec_int_text(v),
        spec_int_of_text(r@) == Some(v),
{
    proof {
        lemma_number_texts_read_back(0, v);
    }
    if v >= 0 {
        digits_text(v as u64, 10)
    } else {
        let magnitude: u64 = (-(v as i128)) as u64;
        let digits = digits_text(magnitude, 10);
        proof {
            reveal_strlit("-");
            assert("-"@ =~= seq!['-']);
        }
        "-".to_owned().concat(digits.as_str())
    }
}

} // verus!
