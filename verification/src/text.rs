//! Byte and string helpers shared by the parsers.

use vstd::prelude::*;
use vstd::slice::slice_subrange;
use vstd::string::StringSliceAdditionalSpecFns;
use vstd::utf8::decode_utf8;
use vstd::utf8::encode_utf8;
use vstd::utf8::encode_utf8_decode_utf8;
use vstd::utf8::encode_utf8_valid_utf8;
use vstd::utf8::is_ascii_chars;
use vstd::utf8::is_ascii_chars_encode_utf8;
use vstd::utf8::valid_utf8;

verus! {

/// The UTF-8 bytes of a string literal, used for element and attribute names.
pub open spec fn lit(s: &str) -> Seq<u8> {
    s.spec_bytes()
}

/// Byte-wise equality of two slices.
pub fn bytes_eq(a: &[u8], b: &[u8]) -> (r: bool)
    ensures
        r == (a@ == b@),
{
    if a.len() != b.len() {
        return false;
    }
    let mut i: usize = 0;
    while i < a.len()
        invariant
            i <= a.len(),
            a.len() == b.len(),
            forall|k: int| 0 <= k < i ==> a@[k] == b@[k],
        decreases a.len() - i,
    {
        if a[i] != b[i] {
            return false;
        }
        i += 1;
    }
    assert(a@ =~= b@);
    true
}

/// Whether `a` holds exactly the bytes of the literal `s`.
pub fn is_lit(a: &[u8], s: &str) -> (r: bool)
    ensures
        r == (a@ == lit(s)),
{
    bytes_eq(a, s.as_bytes())
}

/// Equality of two string slices, character by character.
pub fn str_eq(a: &str, b: &str) -> (r: bool)
    ensures
        r == (a@ == b@),
{
    proof {
        encode_utf8_decode_utf8(a@);
        encode_utf8_decode_utf8(b@);
    }
    bytes_eq(a.as_bytes(), b.as_bytes())
}

/// Concatenation of two string slices into a fresh `String`.
pub fn concat(a: &str, b: &str) -> (r: String)
    ensures
        r@ == a@ + b@,
{
    let mut r = String::from_str(a);
    r.append(b);
    r
}

/// What lossy UTF-8 decoding makes of a byte sequence: the decoded characters, with each
/// malformed sequence replaced by U+FFFD.
pub uninterp spec fn utf8_lossy(bytes: Seq<u8>) -> Seq<char>;

/// Attribute bytes as text. Calls `String::from_utf8_lossy`: the result is the lossy decoding
/// of `value`, which for well-formed UTF-8 is its exact decoding.
#[verifier::external_body]
pub fn attr_value(value: &[u8]) -> (r: String)
    ensures
        r@ == utf8_lossy(value@),
        valid_utf8(value@) ==> r@ == decode_utf8(value@),
{
    String::from_utf8_lossy(value).into_owned()
}

/// Strict UTF-8 decoding. Calls `std::str::from_utf8`: `Some` with the decoded text exactly
/// when `bytes` is well-formed UTF-8.
#[verifier::external_body]
pub(crate) fn utf8_text(bytes: &[u8]) -> (r: Option<String>)
    ensures
        r is Some <==> valid_utf8(bytes@),
        r matches Some(s) ==> s@ == decode_utf8(bytes@),
{
    std::str::from_utf8(bytes).ok().map(|s| s.to_owned())
}

/// Whether `b` is an ASCII decimal digit.
pub open spec fn is_digit(b: u8) -> bool {
    0x30 <= b <= 0x39
}

/// Whether every byte of `s` is an ASCII decimal digit.
pub open spec fn all_digits(s: Seq<u8>) -> bool {
    forall|i: int| 0 <= i < s.len() ==> is_digit(#[trigger] s[i])
}

/// The number that a sequence of decimal digits denotes (0 for the empty sequence).
pub open spec fn digits_value(s: Seq<u8>) -> nat
    decreases s.len(),
{
    if s.len() == 0 {
        0
    } else {
        digits_value(s.drop_last()) * 10 + (s.last() - 0x30) as nat
    }
}

/// A prefix of a digit string never denotes more than the whole string.
pub proof fn lemma_digits_prefix_le(s: Seq<u8>, i: int)
    requires
        all_digits(s),
        0 <= i <= s.len(),
    ensures
        digits_value(s.take(i)) <= digits_value(s),
    decreases s.len() - i,
{
    if i < s.len() {
        lemma_digits_prefix_le(s, i + 1);
        let t = s.take(i + 1);
        assert(t.drop_last() =~= s.take(i));
        assert(is_digit(s[i]));
        assert(t.last() == s[i]);
    } else {
        assert(s.take(i) =~= s);
    }
}

/// Reads the digits `s[start..]` as an unsigned number; `None` when there is no digit, a byte
/// is not a digit, or the value does not fit in 64 bits.
pub open spec fn spec_parse_digits(s: Seq<u8>) -> Option<u64> {
    if s.len() > 0 && all_digits(s) && digits_value(s) <= u64::MAX {
        Some(digits_value(s) as u64)
    } else {
        None
    }
}

pub fn parse_digits(s: &[u8]) -> (r: Option<u64>)
    ensures
        r == spec_parse_digits(s@),
{
    if s.len() == 0 {
        return None;
    }
    let mut acc: u64 = 0;
    let mut i: usize = 0;
    while i < s.len()
        invariant
            i <= s.len(),
            all_digits(s@.take(i as int)),
            acc == digits_value(s@.take(i as int)),
        decreases s.len() - i,
    {
        let b = s[i];
        if b < 0x30 || b > 0x39 {
            return None;
        }
        let ghost next = s@.take(i + 1);
        proof {
            assert(next.drop_last() =~= s@.take(i as int));
        }
        let d: u64 = (b - 0x30) as u64;
        let stepped = match acc.checked_mul(10) {
            Some(m) => m.checked_add(d),
            None => None,
        };
        match stepped {
            Some(v) => {
                acc = v;
            },
            None => {
                proof {
                    if all_digits(s@) {
                        lemma_digits_prefix_le(s@, i + 1);
                    }
                }
                return None;
            },
        }
        i += 1;
    }
    assert(s@.take(i as int) =~= s@);
    Some(acc)
}

/// The part of `s` after an optional leading `+`.
pub open spec fn strip_plus(s: Seq<u8>) -> Seq<u8> {
    if s.len() > 0 && s[0] == 0x2B {
        s.skip(1)
    } else {
        s
    }
}

/// Reads an unsigned decimal number with an optional leading `+`.
pub open spec fn spec_parse_usize(s: Seq<u8>) -> Option<usize> {
    match spec_parse_digits(strip_plus(s)) {
        Some(v) => if v <= usize::MAX {
            Some(v as usize)
        } else {
            None
        },
        None => None,
    }
}

pub fn parse_usize(s: &[u8]) -> (r: Option<usize>)
    ensures
        r == spec_parse_usize(s@),
{
    let body = if s.len() > 0 && s[0] == 0x2B {
        slice_subrange(s, 1, s.len())
    } else {
        s
    };
    match parse_digits(body) {
        Some(v) => if v <= usize::MAX as u64 {
            Some(v as usize)
        } else {
            None
        },
        None => None,
    }
}

/// Whether `s` begins with `prefix`.
pub open spec fn spec_starts_with(s: Seq<u8>, prefix: Seq<u8>) -> bool {
    prefix.len() <= s.len() && s.take(prefix.len() as int) == prefix
}

pub fn starts_with(s: &[u8], prefix: &[u8]) -> (r: bool)
    ensures
        r == spec_starts_with(s@, prefix@),
{
    if prefix.len() > s.len() {
        return false;
    }
    let head = slice_subrange(s, 0, prefix.len());
    bytes_eq(head, prefix)
}

/// Whether `s` ends with `suffix`.
pub open spec fn spec_ends_with(s: Seq<u8>, suffix: Seq<u8>) -> bool {
    suffix.len() <= s.len() && s.skip(s.len() - suffix.len()) == suffix
}

pub fn ends_with(s: &[u8], suffix: &[u8]) -> (r: bool)
    ensures
        r == spec_ends_with(s@, suffix@),
{
    if suffix.len() > s.len() {
        return false;
    }
    let tail = slice_subrange(s, s.len() - suffix.len(), s.len());
    bytes_eq(tail, suffix)
}

/// `s` with every occurrence of `pat` taken out, scanning from the left; an empty `pat`
/// leaves `s` as it is.
pub open spec fn spec_strip_all(s: Seq<u8>, pat: Seq<u8>) -> Seq<u8>
    decreases s.len(),
{
    if pat.len() == 0 || s.len() < pat.len() {
        s
    } else if s.take(pat.len() as int) == pat {
        spec_strip_all(s.skip(pat.len() as int), pat)
    } else {
        seq![s[0]] + spec_strip_all(s.skip(1), pat)
    }
}

pub fn strip_all(s: &[u8], pat: &[u8]) -> (r: Vec<u8>)
    ensures
        r@ == spec_strip_all(s@, pat@),
{
    let mut out: Vec<u8> = Vec::new();
    let mut i: usize = 0;
    proof {
        assert(s@.skip(0) =~= s@);
    }
    while i < s.len()
        invariant
            i <= s.len(),
            out@ + spec_strip_all(s@.skip(i as int), pat@) == spec_strip_all(s@, pat@),
        decreases s.len() - i,
    {
        let rest = slice_subrange(s, i, s.len());
        let ghost before = out@;
        if pat.len() == 0 || rest.len() < pat.len() {
            out.push(s[i]);
            i += 1;
        } else if starts_with(rest, pat) {
            proof {
                assert(s@.skip(i + pat.len()) =~= s@.skip(i as int).skip(pat.len() as int));
            }
            i += pat.len();
        } else {
            out.push(s[i]);
            proof {
                let tail = s@.skip(i as int);
                assert(s@.skip(i + 1) =~= tail.skip(1));
                assert(out@ + spec_strip_all(tail.skip(1), pat@) =~= before + (seq![tail[0]]
                    + spec_strip_all(tail.skip(1), pat@)));
            }
            i += 1;
        }
    }
    out
}

/// A copy of a byte string.
pub fn bytes_to_vec(s: &[u8]) -> (r: Vec<u8>)
    ensures
        r@ == s@,
{
    let mut out: Vec<u8> = Vec::new();
    let mut i: usize = 0;
    while i < s.len()
        invariant
            i <= s.len(),
            out@ == s@.take(i as int),
        decreases s.len() - i,
    {
        out.push(s[i]);
        i += 1;
    }
    out
}

/// Whether every byte of `b` is an ASCII character.
pub open spec fn is_ascii_bytes(b: Seq<u8>) -> bool {
    forall|i: int| 0 <= i < b.len() ==> #[trigger] b[i] < 0x80
}

/// The characters that ASCII bytes stand for.
pub open spec fn ascii_chars(b: Seq<u8>) -> Seq<char> {
    Seq::new(b.len(), |i: int| b[i] as char)
}

/// ASCII bytes are well-formed UTF-8 and decode byte by byte.
pub proof fn lemma_ascii_decode(b: Seq<u8>)
    requires
        is_ascii_bytes(b),
    ensures
        valid_utf8(b),
        decode_utf8(b) == ascii_chars(b),
        encode_utf8(ascii_chars(b)) == b,
{
    let chars = ascii_chars(b);
    assert(is_ascii_chars(chars)) by {
        assert forall|i: int| 0 <= i < chars.len() implies '\0' <= #[trigger] chars[i]
            <= '\u{7f}' by {
            assert(b[i] < 0x80);
        }
    }
    is_ascii_chars_encode_utf8(chars);
    assert(encode_utf8(chars) =~= b) by {
        assert forall|i: int| 0 <= i < b.len() implies encode_utf8(chars)[i] == b[i] by {
            assert(chars[i] as u8 == encode_utf8(chars)[i]);
            assert(b[i] < 0x80);
        }
    }
    encode_utf8_valid_utf8(chars);
    encode_utf8_decode_utf8(chars);
}

/// The string that ASCII bytes spell.
pub fn ascii_string(b: &[u8]) -> (r: String)
    requires
        is_ascii_bytes(b@),
    ensures
        r@ == ascii_chars(b@),
{
    proof {
        lemma_ascii_decode(b@);
    }
    attr_value(b)
}

/// The index of the first `.` at or behind `from`, or the length where there is none.
pub open spec fn dot_from(s: Seq<u8>, from: int) -> int
    decreases s.len() - from,
{
    if from < 0 || from >= s.len() {
        s.len() as int
    } else if s[from] == 0x2E {
        from
    } else {
        dot_from(s, from + 1)
    }
}

/// The first `scale` fraction digits, with zeros where the fraction is shorter.
pub open spec fn pad_fraction(frac: Seq<u8>, scale: nat) -> Seq<u8> {
    if frac.len() >= scale {
        frac.take(scale as int)
    } else {
        frac + Seq::new((scale - frac.len()) as nat, |i: int| 0x30u8)
    }
}

/// Whether the text begins with a minus sign.
pub open spec fn has_minus(s: Seq<u8>) -> bool {
    s.len() > 0 && s[0] == 0x2D
}

/// The text behind an optional sign.
pub open spec fn strip_sign(s: Seq<u8>) -> Seq<u8> {
    if s.len() > 0 && (s[0] == 0x2D || s[0] == 0x2B) {
        s.skip(1)
    } else {
        s
    }
}

/// The whole-number digits of an unsigned decimal.
pub open spec fn whole_part(body: Seq<u8>) -> Seq<u8> {
    body.take(dot_from(body, 0))
}

/// The fraction digits of an unsigned decimal.
pub open spec fn fraction_part(body: Seq<u8>) -> Seq<u8> {
    if dot_from(body, 0) < body.len() {
        body.skip(dot_from(body, 0) + 1)
    } else {
        Seq::empty()
    }
}

/// Reads a decimal number (an optional sign, digits, and optionally a point and more digits,
/// with a digit on at least one side) as a whole number of units of which 10^`scale` make
/// one; fraction digits beyond `scale` are cut off. `None` for any other text, and where the
/// magnitude does not fit in an `i64`.
pub open spec fn spec_parse_scaled(s: Seq<u8>, scale: nat) -> Option<i64> {
    let body = strip_sign(s);
    let whole = whole_part(body);
    let frac = fraction_part(body);
    let magnitude = digits_value(whole + pad_fraction(frac, scale));
    if whole.len() + frac.len() == 0 || !all_digits(whole) || !all_digits(frac) || magnitude
        > i64::MAX {
        None
    } else if has_minus(s) {
        Some((-magnitude) as i64)
    } else {
        Some(magnitude as i64)
    }
}

pub fn check_digits(s: &[u8]) -> (r: bool)
    ensures
        r == all_digits(s@),
{
    let mut i: usize = 0;
    while i < s.len()
        invariant
            i <= s.len(),
            forall|k: int| 0 <= k < i ==> is_digit(#[trigger] s@[k]),
        decreases s.len() - i,
    {
        if s[i] < 0x30 || s[i] > 0x39 {
            return false;
        }
        i += 1;
    }
    true
}

fn find_dot(s: &[u8]) -> (r: usize)
    ensures
        r == dot_from(s@, 0),
        r <= s.len(),
{
    let mut i: usize = 0;
    while i < s.len()
        invariant
            i <= s.len(),
            dot_from(s@, i as int) == dot_from(s@, 0),
        decreases s.len() - i,
    {
        if s[i] == 0x2E {
            return i;
        }
        i += 1;
    }
    i
}

pub fn parse_scaled(s: &[u8], scale: usize) -> (r: Option<i64>)
    ensures
        r == spec_parse_scaled(s@, scale as nat),
{
    let negative = s.len() > 0 && s[0] == 0x2D;
    let body = if s.len() > 0 && (s[0] == 0x2D || s[0] == 0x2B) {
        slice_subrange(s, 1, s.len())
    } else {
        s
    };
    let dot = find_dot(body);
    let whole = slice_subrange(body, 0, dot);
    let frac = if dot < body.len() {
        slice_subrange(body, dot + 1, body.len())
    } else {
        slice_subrange(body, 0, 0)
    };
    if whole.len() + frac.len() == 0 || !check_digits(whole) || !check_digits(frac) {
        return None;
    }
    let mut digits: Vec<u8> = bytes_to_vec(whole);
    let mut k: usize = 0;
    while k < scale
        invariant
            k <= scale,
            all_digits(whole@),
            all_digits(frac@),
            digits@.len() == whole@.len() + k,
            digits@ == whole@ + pad_fraction(frac@, k as nat),
        decreases scale - k,
    {
        if k < frac.len() {
            digits.push(frac[k]);
        } else {
            digits.push(0x30);
        }
        k += 1;
    }
    assert(all_digits(digits@));
    let magnitude: u64 = if digits.len() == 0 {
        0
    } else {
        match parse_digits(digits.as_slice()) {
            Some(v) => v,
            None => {
                return None;
            },
        }
    };
    if magnitude > i64::MAX as u64 {
        return None;
    }
    if negative {
        Some(-(magnitude as i64))
    } else {
        Some(magnitude as i64)
    }
}

/// Reads a whole number with an optional sign; `None` for any other text and where the
/// number does not fit in an `i64`.
pub open spec fn spec_parse_i64(s: Seq<u8>) -> Option<i64> {
    let body = strip_sign(s);
    if body.len() == 0 || !all_digits(body) {
        None
    } else if has_minus(s) {
        if digits_value(body) <= i64::MAX + 1 {
            Some((-digits_value(body)) as i64)
        } else {
            None
        }
    } else if digits_value(body) <= i64::MAX {
        Some(digits_value(body) as i64)
    } else {
        None
    }
}

pub fn parse_i64(s: &[u8]) -> (r: Option<i64>)
    ensures
        r == spec_parse_i64(s@),
{
    let negative = s.len() > 0 && s[0] == 0x2D;
    let body = if s.len() > 0 && (s[0] == 0x2D || s[0] == 0x2B) {
        slice_subrange(s, 1, s.len())
    } else {
        s
    };
    match parse_digits(body) {
        Some(v) => {
            if negative {
                if v <= i64::MAX as u64 {
                    Some(-(v as i64))
                } else if v == 0x8000_0000_0000_0000 {
                    Some(i64::MIN)
                } else {
                    None
                }
            } else if v <= i64::MAX as u64 {
                Some(v as i64)
            } else {
                None
            }
        },
        None => None,
    }
}

/// The upper-case hexadecimal digit for a value below 16.
pub open spec fn hex_digit(v: u8) -> u8 {
    if v < 10 {
        (0x30 + v) as u8
    } else {
        (0x41 + v - 10) as u8
    }
}

/// The two upper-case hexadecimal digits of a byte.
pub open spec fn spec_hex_byte(v: u8) -> Seq<u8> {
    seq![hex_digit(v / 16), hex_digit(v % 16)]
}

fn hex_digit_of(v: u8) -> (r: u8)
    requires
        v < 16,
    ensures
        r == hex_digit(v),
        r < 0x80,
{
    if v < 10 {
        0x30 + v
    } else {
        0x41 + (v - 10)
    }
}

/// Appends the two upper-case hexadecimal digits of `v`.
pub fn push_hex_byte(out: &mut Vec<u8>, v: u8)
    ensures
        final(out)@ == old(out)@ + spec_hex_byte(v),
{
    out.push(hex_digit_of(v / 16));
    out.push(hex_digit_of(v % 16));
}

/// The value of a hexadecimal digit of either case.
pub open spec fn hex_value(b: u8) -> Option<u8> {
    if 0x30 <= b <= 0x39 {
        Some((b - 0x30) as u8)
    } else if 0x41 <= b <= 0x46 {
        Some((b - 0x41 + 10) as u8)
    } else if 0x61 <= b <= 0x66 {
        Some((b - 0x61 + 10) as u8)
    } else {
        None
    }
}

pub fn hex_value_of(b: u8) -> (r: Option<u8>)
    ensures
        r == hex_value(b),
        r matches Some(v) ==> v < 16,
{
    if 0x30 <= b && b <= 0x39 {
        Some(b - 0x30)
    } else if 0x41 <= b && b <= 0x46 {
        Some(b - 0x41 + 10)
    } else if 0x61 <= b && b <= 0x66 {
        Some(b - 0x61 + 10)
    } else {
        None
    }
}

/// The decimal digits of a number, without leading zeros.
pub open spec fn decimal_digits(n: nat) -> Seq<u8>
    decreases n,
{
    if n < 10 {
        seq![(0x30 + n) as u8]
    } else {
        decimal_digits(n / 10).push((0x30 + n % 10) as u8)
    }
}

/// The decimal text of a number.
pub open spec fn decimal_text(n: nat) -> Seq<char> {
    ascii_chars(decimal_digits(n))
}

pub proof fn lemma_decimal_digits_ascii(n: nat)
    ensures
        is_ascii_bytes(decimal_digits(n)),
    decreases n,
{
    if n >= 10 {
        lemma_decimal_digits_ascii(n / 10);
    }
}

/// The decimal text of a number.
pub fn decimal_string(n: u64) -> (r: String)
    ensures
        r@ == decimal_text(n as nat),
{
    let mut rest: u64 = n;
    let mut tail: Vec<u8> = Vec::new();
    while rest >= 10
        invariant
            decimal_digits(rest as nat) + tail@ == decimal_digits(n as nat),
        decreases rest,
    {
        let d: u8 = (rest % 10) as u8;
        let ghost before = tail@;
        tail.insert(0, 0x30 + d);
        proof {
            assert(decimal_digits((rest / 10) as nat).push((0x30 + d) as u8) + before
                =~= decimal_digits((rest / 10) as nat) + tail@);
        }
        rest = rest / 10;
    }
    let ghost before = tail@;
    tail.insert(0, 0x30 + (rest as u8));
    proof {
        assert(tail@ =~= decimal_digits(rest as nat) + before);
        lemma_decimal_digits_ascii(n as nat);
    }
    ascii_string(tail.as_slice())
}

/// The bytes with every backslash turned into a slash.
pub open spec fn spec_slashes(s: Seq<u8>) -> Seq<u8> {
    Seq::new(
        s.len(),
        |i: int|
            if s[i] == 0x5C {
                0x2Fu8
            } else {
                s[i]
            },
    )
}

pub fn slashes(s: &[u8]) -> (r: Vec<u8>)
    ensures
        r@ == spec_slashes(s@),
{
    let mut out: Vec<u8> = Vec::new();
    let mut i: usize = 0;
    while i < s.len()
        invariant
            i <= s.len(),
            out@ == spec_slashes(s@).take(i as int),
        decreases s.len() - i,
    {
        out.push(
            if s[i] == 0x5C {
                0x2F
            } else {
                s[i]
            },
        );
        i += 1;
    }
    out
}

/// The deep view of a byte vector is its view.
pub broadcast proof fn lemma_bytes_deep_view(v: Vec<u8>)
    ensures
        #[trigger] v.deep_view() == v@,
{
    assert(v.deep_view() =~= v@);
}

pub proof fn lemma_hex_byte_ascii(v: u8)
    ensures
        is_ascii_bytes(spec_hex_byte(v)),
        spec_hex_byte(v).len() == 2,
{
    assert(hex_digit(v / 16) < 0x80);
    assert(hex_digit(v % 16) < 0x80);
}

/// Appends bytes to a byte vector.
pub fn push_bytes(out: &mut Vec<u8>, more: &[u8])
    ensures
        final(out)@ == old(out)@ + more@,
{
    let mut k: usize = 0;
    while k < more.len()
        invariant
            k <= more.len(),
            out@ == old(out)@ + more@.take(k as int),
        decreases more.len() - k,
    {
        out.push(more[k]);
        k += 1;
    }
}

} // verus!
