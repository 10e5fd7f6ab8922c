//! The field coercions of the wire format: `0x`-prefixed hexadecimal
//! integers and the one-character boolean marker.
//!
//! Every numeric field of a device fragment is ASCII text of the shape
//! `0x` followed by hexadecimal digits of either case, valued as an
//! unsigned 32-bit integer. The boolean field is `true` exactly for the
//! literal text `Y`.

use vstd::prelude::*;
use crate::text::str_to_chars;

verus! {

/// True for an ASCII hexadecimal digit of either case.
pub open spec fn is_hex_digit(c: char) -> bool {
    (48 <= c as u32 && c as u32 <= 57)  // '0' ..= '9'
    || (97 <= c as u32 && c as u32 <= 102)  // 'a' ..= 'f'
    || (65 <= c as u32 && c as u32 <= 70)  // 'A' ..= 'F'

}

/// The numeric value of one hexadecimal digit; 0 on any other character.
pub open spec fn hex_digit_value(c: char) -> nat {
    if 48 <= c as u32 && c as u32 <= 57 {
        (c as u32 - 48) as nat
    } else if 97 <= c as u32 && c as u32 <= 102 {
        (c as u32 - 87) as nat
    } else if 65 <= c as u32 && c as u32 <= 70 {
        (c as u32 - 55) as nat
    } else {
        0
    }
}

/// The integer a digit string denotes in base 16, most significant digit first.
pub open spec fn hex_value(s: Seq<char>) -> nat
    decreases s.len(),
{
    if s.len() == 0 {
        0
    } else {
        hex_value(s.drop_last()) * 16 + hex_digit_value(s.last())
    }
}

pub open spec fn all_hex_digits(s: Seq<char>) -> bool {
    forall|i: int| 0 <= i < s.len() ==> is_hex_digit(s[i])
}

/// What parsing a bare (unprefixed) hexadecimal numeral yields: its value
/// when the text is a non-empty digit string whose value fits in 32 bits,
/// nothing otherwise.
pub open spec fn spec_parse_hex_u32(s: Seq<char>) -> Option<u32> {
    if s.len() > 0 && all_hex_digits(s) && hex_value(s) <= u32::MAX {
        Some(hex_value(s) as u32)
    } else {
        None
    }
}

/// The hex-integer field coercion: drop the two prefix characters and
/// parse the remainder; fail when the text is shorter than the prefix.
pub open spec fn spec_from_hex(s: Seq<char>) -> Option<u32> {
    if s.len() >= 2 {
        spec_parse_hex_u32(s.skip(2))
    } else {
        None
    }
}

/// The boolean field coercion: `true` exactly for the one-character text `Y`.
pub open spec fn spec_from_hex_bool(s: Seq<char>) -> bool {
    s == "Y"@
}

/// Extending a digit string can only raise its value: the value of a
/// prefix never exceeds the value of the whole string.
pub proof fn lemma_hex_value_prefix(s: Seq<char>, n: int)
    requires
        0 <= n <= s.len(),
    ensures
        hex_value(s) >= hex_value(s.take(n)),
    decreases s.len() - n,
{
    if n == s.len() {
        assert(s.take(n) =~= s);
    } else {
        assert(s.take(n + 1).drop_last() =~= s.take(n));
        assert(s.take(n + 1).last() == s[n]);
        lemma_hex_value_prefix(s, n + 1);
    }
}

/// The lowercase character of one hexadecimal digit value.
pub open spec fn hex_digit_char(d: nat) -> char
    recommends
        d < 16,
{
    if d < 10 {
        ((48 + d) as u8) as char
    } else {
        ((87 + d) as u8) as char
    }
}

/// The minimal-width lowercase hexadecimal numeral of an integer.
pub open spec fn hex_encode(v: nat) -> Seq<char>
    decreases v,
{
    if v < 16 {
        seq![hex_digit_char(v)]
    } else {
        hex_encode(v / 16).push(hex_digit_char(v % 16))
    }
}

pub open spec fn pow16(n: nat) -> nat
    decreases n,
{
    if n == 0 {
        1
    } else {
        16 * pow16((n - 1) as nat)
    }
}

/// A digit string of length `n` denotes a value below `16^n`.
pub proof fn lemma_hex_value_bound(s: Seq<char>)
    ensures
        hex_value(s) < pow16(s.len()),
    decreases s.len(),
{
    if s.len() > 0 {
        lemma_hex_value_bound(s.drop_last());
    }
}

pub proof fn lemma_pow16_mono(a: nat, b: nat)
    requires
        a <= b,
    ensures
        pow16(a) <= pow16(b),
    decreases b,
{
    if a < b {
        lemma_pow16_mono(a, (b - 1) as nat);
    }
}

/// Encoding an integer yields a non-empty all-digit numeral that
/// denotes that same integer.
pub proof fn lemma_hex_encode_value(v: nat)
    ensures
        hex_value(hex_encode(v)) == v,
        all_hex_digits(hex_encode(v)),
        hex_encode(v).len() >= 1,
    decreases v,
{
    if v < 16 {
        assert(seq![hex_digit_char(v)].drop_last() =~= Seq::<char>::empty());
        assert(hex_value(Seq::<char>::empty()) == 0);
        assert(hex_digit_value(hex_digit_char(v)) == v);
        assert(hex_value(seq![hex_digit_char(v)]) == v);
    } else {
        lemma_hex_encode_value(v / 16);
        vstd::arithmetic::div_mod::lemma_fundamental_div_mod(v as int, 16);
        let e = hex_encode(v / 16);
        assert(e.push(hex_digit_char(v % 16)).drop_last() =~= e);
        assert(hex_digit_value(hex_digit_char(v % 16)) == v % 16);
        assert(hex_value(e.push(hex_digit_char(v % 16))) == hex_value(e) * 16 + hex_digit_value(
            hex_digit_char(v % 16),
        ));
        assert(forall|i: int|
            0 <= i < e.push(hex_digit_char(v % 16)).len() ==> is_hex_digit(
                #[trigger] e.push(hex_digit_char(v % 16))[i],
            ));
    }
}

/// Law: a `0x`-prefixed numeral of one to eight hexadecimal digits
/// decodes to a 32-bit value, and re-encoding that value as a lowercase
/// unprefixed numeral round-trips to the same integer.
pub proof fn lemma_hex_round_trip(h: Seq<char>)
    requires
        1 <= h.len() <= 8,
        all_hex_digits(h),
    ensures
        spec_from_hex("0x"@ + h) == Some((hex_value(h) as u32)),
        hex_value(hex_encode(hex_value(h))) == hex_value(h),
{
    reveal_strlit("0x");
    assert(("0x"@ + h).skip(2) =~= h);
    lemma_hex_value_bound(h);
    lemma_pow16_mono(h.len(), 8);
    reveal_with_fuel(pow16, 9);
    assert(pow16(8) == 0x1_0000_0000);
    lemma_hex_encode_value(hex_value(h));
}

/// Classifies one character as a hexadecimal digit.
fn hex_digit(c: char) -> (r: Option<u32>)
    ensures
        r is Some <==> is_hex_digit(c),
        r matches Some(d) ==> d == hex_digit_value(c),
{
    let u = c as u32;
    if 48 <= u && u <= 57 {
        Some(u - 48)
    } else if 97 <= u && u <= 102 {
        Some(u - 87)
    } else if 65 <= u && u <= 70 {
        Some(u - 55)
    } else {
        None
    }
}

/// Parses the range `[from, to)` of a character vector as a bare
/// hexadecimal numeral.
pub fn parse_hex_digits(s: &Vec<char>, from: usize, to: usize) -> (r: Option<u32>)
    requires
        from <= to <= s@.len(),
    ensures
        r == spec_parse_hex_u32(s@.subrange(from as int, to as int)),
{
    let ghost whole: Seq<char> = s@.subrange(from as int, to as int);
    if from == to {
        return None;
    }
    let mut acc: u64 = 0;
    let mut k: usize = from;
    while k < to
        invariant
            from <= k <= to <= s@.len(),
            whole == s@.subrange(from as int, to as int),
            all_hex_digits(s@.subrange(from as int, k as int)),
            acc == hex_value(s@.subrange(from as int, k as int)),
            acc <= u32::MAX as u64,
        decreases to - k,
    {
        let ghost prefix: Seq<char> = s@.subrange(from as int, k as int);
        let ghost prefix1: Seq<char> = s@.subrange(from as int, k as int + 1);
        proof {
            assert(prefix1.drop_last() =~= prefix);
            assert(prefix1.last() == s@[k as int]);
            assert(whole.take(k as int + 1 - from) =~= prefix1);
        }
        match hex_digit(s[k]) {
            None => {
                proof {
                    assert(whole[k - from] == s@[k as int]);
                    assert(!all_hex_digits(whole));
                }
                return None;
            },
            Some(d) => {
                let next: u64 = acc * 16 + d as u64;
                proof {
                    assert(hex_value(prefix1) == hex_value(prefix) * 16 + hex_digit_value(
                        s@[k as int],
                    ));
                }
                if next > u32::MAX as u64 {
                    proof {
                        lemma_hex_value_prefix(whole, k as int + 1 - from);
                        assert(hex_value(whole) > u32::MAX);
                    }
                    return None;
                }
                acc = next;
            },
        }
        k = k + 1;
    }
    proof {
        assert(s@.subrange(from as int, k as int) =~= whole);
    }
    Some(acc as u32)
}

/// Decodes a `0x`-prefixed hexadecimal field value into an unsigned
/// 32-bit integer; rejects text shorter than the prefix, non-digit
/// characters after it, an empty remainder, and values over 32 bits.
pub fn from_hex(s: &str) -> (r: Option<u32>)
    ensures
        r == spec_from_hex(s@),
{
    let cs: Vec<char> = str_to_chars(s);
    if cs.len() < 2 {
        return None;
    }
    let r = parse_hex_digits(&cs, 2, cs.len());
    proof {
        assert(s@.skip(2) =~= cs@.subrange(2, cs@.len() as int));
    }
    r
}

fn hex_char(d: u32) -> (c: char)
    requires
        d < 16,
    ensures
        c == hex_digit_char(d as nat),
{
    if d < 10 {
        ((48 + d) as u8) as char
    } else {
        ((87 + d) as u8) as char
    }
}

/// Encodes a value as a minimal-width lowercase hexadecimal numeral.
pub fn to_hex(v: u32) -> (r: String)
    ensures
        r@ == hex_encode(v as nat),
    decreases v,
{
    if v < 16 {
        let mut s: String = String::new();
        crate::text::string_push_char(&mut s, hex_char(v));
        proof {
            assert(Seq::<char>::empty().push(hex_digit_char(v as nat)) =~= seq![
                hex_digit_char(v as nat),
            ]);
        }
        s
    } else {
        let mut s: String = to_hex(v / 16);
        crate::text::string_push_char(&mut s, hex_char(v % 16));
        s
    }
}

/// As [`from_hex`], on an already split-out character vector.
pub fn from_hex_chars(v: &Vec<char>) -> (r: Option<u32>)
    ensures
        r == spec_from_hex(v@),
{
    if v.len() < 2 {
        return None;
    }
    let r = parse_hex_digits(v, 2, v.len());
    proof {
        assert(v@.skip(2) =~= v@.subrange(2, v@.len() as int));
    }
    r
}

/// The verbatim string field coercion: the text passes through unchanged.
pub fn from_hex_string(s: &str) -> (r: String)
    ensures
        r@ == s@,
{
    let cs: Vec<char> = str_to_chars(s);
    let r = crate::text::chars_to_string(&cs, 0, cs.len());
    proof {
        assert(cs@.subrange(0, cs@.len() as int) =~= s@);
    }
    r
}

/// The boolean field coercion: `true` only for the literal text `Y`.
pub fn from_hex_bool(s: &str) -> (r: bool)
    ensures
        r == spec_from_hex_bool(s@),
{
    let cs: Vec<char> = str_to_chars(s);
    crate::text::chars_eq_str(&cs, "Y")
}

} // verus!
