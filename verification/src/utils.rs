//! Helpers shared by the Office parsers: colours, cell references, column letters.

use vstd::prelude::*;
use vstd::utf8::encode_utf8;
use crate::error::Error;
use crate::error::ErrorView;
use crate::strmap::map_get;
use crate::text::ascii_chars;
use crate::text::ascii_string;
use crate::text::attr_value;
use crate::text::concat;
use crate::text::hex_value;
use crate::text::hex_value_of;
use crate::text::is_ascii_bytes;
use crate::text::lit;
use crate::text::parse_usize;
use crate::text::push_hex_byte;
use crate::text::spec_hex_byte;
use crate::text::spec_parse_usize;
use crate::text::str_eq;
use crate::text::utf8_lossy;
use crate::theme::Theme;
use crate::theme::ThemeView;
use crate::xml::attr_first;
use crate::xml::first_attr;
use crate::xml::XmlEvent;

verus! {

/// The colour that a `val`-style attribute names: `#` and the attribute's text, unless the
/// text is `auto`, which names no colour.
pub open spec fn spec_hash_color(value: Seq<u8>) -> Option<Seq<char>> {
    if utf8_lossy(value) == "auto"@ {
        None
    } else {
        Some("#"@ + utf8_lossy(value))
    }
}

pub fn hash_color(value: &[u8]) -> (r: Option<String>)
    ensures
        r.deep_view() == spec_hash_color(value@),
{
    let text = attr_value(value);
    if str_eq(text.as_str(), "auto") {
        None
    } else {
        Some(concat("#", text.as_str()))
    }
}

/// Half of `v`, rounded towards zero.
pub open spec fn spec_half(v: i64) -> i64 {
    if v >= 0 {
        (v / 2) as i64
    } else {
        (-((-v) / 2)) as i64
    }
}

pub fn half(v: i64) -> (r: i64)
    ensures
        r == spec_half(v),
{
    if v >= 0 {
        v / 2
    } else if v == i64::MIN {
        -0x4000_0000_0000_0000
    } else {
        -((-v) / 2)
    }
}

/// The text of the first attribute named `key`.
pub open spec fn spec_attr_value_opt(event: crate::xml::XmlEventView, key: Seq<u8>) -> Option<
    Seq<char>,
> {
    match attr_first(event.attrs, key) {
        Some(v) => Some(utf8_lossy(v)),
        None => None,
    }
}

/// The text of the first attribute of `event` named `key`.
pub fn attr_value_opt(event: &XmlEvent, key: &str) -> (r: Option<String>)
    ensures
        r.deep_view() == spec_attr_value_opt(event.deep_view(), lit(key)),
{
    match first_attr(&event.attrs, key) {
        Some(v) => Some(attr_value(v.as_slice())),
        None => None,
    }
}

/// One millionth is the unit of a tint: 1,000,000 is a tint of 1.
pub const TINT_ONE: i64 = 1000000;

/// The value of a colour channel written as two hexadecimal digits (or as `+` and one), or 0
/// where the two bytes are no such number.
pub open spec fn channel_value(high: u8, low: u8) -> u8 {
    if high == 0x2B {
        match hex_value(low) {
            Some(l) => l,
            None => 0,
        }
    } else {
        match (hex_value(high), hex_value(low)) {
            (Some(h), Some(l)) => (16 * h + l) as u8,
            _ => 0,
        }
    }
}

/// The colour channel that stands at `at` in the hex digits of a colour, or 0 where the
/// text is too short.
pub open spec fn channel_at(hex: Seq<u8>, at: int) -> u8 {
    if 0 <= at && at + 2 <= hex.len() {
        channel_value(hex[at], hex[at + 1])
    } else {
        0
    }
}

/// A colour channel after a tint, in millionths, is applied. A positive tint lightens:
/// `c * (1 - t) + 255 * t`; a negative tint darkens: `c * (1 + t)`. The result is rounded to
/// the nearest whole number, halves away from zero, and kept within 0 and 255.
pub open spec fn tinted(c: u8, tint: i64) -> u8 {
    let scaled: int = if tint > 0 {
        c * (TINT_ONE - tint) + 255 * tint
    } else {
        c * (TINT_ONE + tint)
    };
    if scaled <= 0 {
        0
    } else if (scaled + TINT_ONE / 2) / (TINT_ONE as int) >= 255 {
        255
    } else {
        ((scaled + TINT_ONE / 2) / (TINT_ONE as int)) as u8
    }
}

/// The hex digits of a colour after a tint is applied to its three channels.
pub open spec fn tinted_hex(hex: Seq<u8>, tint: i64) -> Seq<u8> {
    spec_hex_byte(tinted(channel_at(hex, 0), tint)) + spec_hex_byte(
        tinted(channel_at(hex, 2), tint),
    ) + spec_hex_byte(tinted(channel_at(hex, 4), tint))
}

/// The colour `#RRGGBB` that a base colour, given by its hex digits, becomes under a tint.
/// A tint of 0 changes nothing: the result is `#` and the very text that was given.
pub open spec fn spec_apply_tint(hex: Seq<char>, tint: i64) -> Seq<char> {
    if tint == 0 {
        "#"@ + hex
    } else {
        "#"@ + ascii_chars(tinted_hex(encode_utf8(hex), tint))
    }
}

fn channel_of(hex: &[u8], at: usize) -> (r: u8)
    requires
        at <= 4,
    ensures
        r == channel_at(hex@, at as int),
{
    if at + 2 > hex.len() {
        return 0;
    }
    let high = hex[at];
    let low = hex[at + 1];
    if high == 0x2B {
        match hex_value_of(low) {
            Some(l) => l,
            None => 0,
        }
    } else {
        match (hex_value_of(high), hex_value_of(low)) {
            (Some(h), Some(l)) => 16 * h + l,
            _ => 0,
        }
    }
}

fn tint_channel(c: u8, tint: i64) -> (r: u8)
    ensures
        r == tinted(c, tint),
{
    let channel: i128 = c as i128;
    let factor: i128 = if tint > 0 {
        1000000 - tint as i128
    } else {
        1000000 + tint as i128
    };
    assert(-0x1_0000_0000_0000_0000 * 256 <= channel * factor <= 0x1_0000_0000_0000_0000 * 256)
        by (nonlinear_arith)
        requires
            0 <= channel <= 255,
            -0x1_0000_0000_0000_0000 <= factor <= 0x1_0000_0000_0000_0000,
    ;
    let scaled: i128 = if tint > 0 {
        channel * factor + 255 * (tint as i128)
    } else {
        channel * factor
    };
    if scaled <= 0 {
        0
    } else {
        let rounded: i128 = (scaled + 500000) / 1000000;
        if rounded >= 255 {
            255
        } else {
            rounded as u8
        }
    }
}

/// Applies a tint, in millionths, to a colour given by its hex digits.
pub fn apply_tint(hex: &str, tint: i64) -> (r: String)
    ensures
        r@ == spec_apply_tint(hex@, tint),
        tint == 0 ==> r@ == "#"@ + hex@,
{
    if tint == 0 {
        return concat("#", hex);
    }
    let bytes = hex.as_bytes();
    let mut out: Vec<u8> = Vec::new();
    push_hex_byte(&mut out, tint_channel(channel_of(bytes, 0), tint));
    push_hex_byte(&mut out, tint_channel(channel_of(bytes, 2), tint));
    push_hex_byte(&mut out, tint_channel(channel_of(bytes, 4), tint));
    assert(is_ascii_bytes(out@)) by {
        crate::text::lemma_hex_byte_ascii(tinted(channel_at(bytes@, 0), tint));
        crate::text::lemma_hex_byte_ascii(tinted(channel_at(bytes@, 2), tint));
        crate::text::lemma_hex_byte_ascii(tinted(channel_at(bytes@, 4), tint));
    }
    let digits = ascii_string(out.as_slice());
    concat("#", digits.as_str())
}

/// The colour that Word or Excel attributes name. A direct value decides, unless it is
/// `auto` or empty; else the theme colour, with the tint applied where there is one.
pub open spec fn spec_resolve_word_color(
    val: Option<Seq<char>>,
    theme_color: Option<Seq<char>>,
    tint: Option<i64>,
    theme: ThemeView,
) -> Option<Seq<char>> {
    let direct = match val {
        Some(v) => v != "auto"@ && v.len() > 0,
        None => false,
    };
    if direct {
        Some("#"@ + val->0)
    } else {
        match theme_color {
            Some(slot) => match map_get(theme.color_scheme, slot) {
                Some(hex) => match tint {
                    Some(t) => Some(spec_apply_tint(hex, t)),
                    None => Some("#"@ + hex),
                },
                None => None,
            },
            None => None,
        }
    }
}

/// Resolves a colour from Word or Excel attributes against the theme. The tint is in
/// millionths; the shade is not used.
pub fn resolve_word_color(
    val: Option<&str>,
    theme_color: Option<&str>,
    tint: Option<i64>,
    _shade: Option<i64>,
    theme: &Theme,
) -> (r: Option<String>)
    ensures
        r.deep_view() == spec_resolve_word_color(
            match val {
                Some(v) => Some(v@),
                None => None,
            },
            match theme_color {
                Some(v) => Some(v@),
                None => None,
            },
            tint,
            theme.deep_view(),
        ),
{
    match val {
        Some(v) => {
            if !str_eq(v, "auto") && v.unicode_len() != 0 {
                return Some(concat("#", v));
            }
        },
        None => {},
    }
    match theme_color {
        Some(slot) => match theme.resolve_color(slot) {
            Some(hex) => match tint {
                Some(t) => Some(apply_tint(hex.as_str(), t)),
                None => Some(concat("#", hex.as_str())),
            },
            None => None,
        },
        None => None,
    }
}

/// Whether a character is an upper-case ASCII letter.
pub open spec fn is_upper(c: char) -> bool {
    'A' <= c <= 'Z'
}

/// The place of an upper-case letter in the alphabet, counted from 1.
pub open spec fn letter_rank(c: char) -> nat {
    (c as u32 - 0x40) as nat
}

/// The number of a column given by its letters, counted from 1: base 26 with the digits
/// `A` = 1 to `Z` = 26.
pub open spec fn column_number(s: Seq<char>) -> nat
    decreases s.len(),
{
    if s.len() == 0 {
        0
    } else {
        column_number(s.drop_last()) * 26 + letter_rank(s.last())
    }
}

/// Whether a text is made of upper-case ASCII letters only.
pub open spec fn all_upper(s: Seq<char>) -> bool {
    forall|i: int| 0 <= i < s.len() ==> is_upper(#[trigger] s[i])
}

/// The letter of rank `k`, counted from 0.
pub open spec fn letter_at(k: nat) -> char {
    ((0x41 + k) as u8) as char
}

/// The letters of the column with index `n`, counted from 0: `A` for 0, `Z` for 25, `AA`
/// for 26.
pub open spec fn column_letters(n: nat) -> Seq<char>
    decreases n,
{
    if n < 26 {
        seq![letter_at(n)]
    } else {
        column_letters((n / 26 - 1) as nat).push(letter_at(n % 26))
    }
}

/// Column letters are upper-case letters.
pub proof fn lemma_column_letters_upper(n: nat)
    ensures
        all_upper(column_letters(n)),
        column_letters(n).len() >= 1,
    decreases n,
{
    if n >= 26 {
        lemma_column_letters_upper((n / 26 - 1) as nat);
        let head = column_letters((n / 26 - 1) as nat);
        let c = letter_at(n % 26);
        assert(is_upper(c));
        assert forall|i: int| 0 <= i < head.push(c).len() implies is_upper(
            #[trigger] head.push(c)[i],
        ) by {
            if i < head.len() {
                assert(head.push(c)[i] == head[i]);
            }
        }
    } else {
        assert(is_upper(letter_at(n)));
    }
}

/// From an index to letters and back gives the index.
pub proof fn lemma_column_round_trip_index(n: nat)
    ensures
        column_number(column_letters(n)) == n + 1,
    decreases n,
{
    if n < 26 {
        let s = column_letters(n);
        assert(s.drop_last() =~= Seq::<char>::empty());
        assert(column_number(s.drop_last()) == 0);
        assert(letter_rank(letter_at(n)) == n + 1);
    } else {
        let m = (n / 26 - 1) as nat;
        lemma_column_round_trip_index(m);
        let s = column_letters(n);
        assert(s.drop_last() =~= column_letters(m));
        assert(s.last() == letter_at(n % 26));
        assert(letter_rank(letter_at(n % 26)) == n % 26 + 1);
        assert((m + 1) * 26 + n % 26 + 1 == n + 1) by (nonlinear_arith)
            requires
                m == n / 26 - 1,
                n >= 26,
        ;
    }
}

/// From letters to a number and back gives the letters.
pub proof fn lemma_column_round_trip_letters(s: Seq<char>)
    requires
        s.len() >= 1,
        all_upper(s),
    ensures
        column_number(s) >= 1,
        column_letters((column_number(s) - 1) as nat) == s,
    decreases s.len(),
{
    let t = s.drop_last();
    let c = s.last();
    assert(is_upper(c));
    let d = letter_rank(c);
    assert(1 <= d <= 26);
    assert(letter_at((d - 1) as nat) == c);
    if t.len() == 0 {
        assert(column_number(t) == 0);
        assert(column_number(s) == d);
        assert(column_letters((d - 1) as nat) =~= s);
    } else {
        assert(all_upper(t)) by {
            assert forall|i: int| 0 <= i < t.len() implies is_upper(#[trigger] t[i]) by {
                assert(t[i] == s[i]);
            }
        }
        lemma_column_round_trip_letters(t);
        let q = column_number(t);
        let n = (q * 26 + d - 1) as nat;
        assert(column_number(s) == q * 26 + d);
        assert(n >= 26 && n / 26 == q && n % 26 == d - 1) by (nonlinear_arith)
            requires
                n == q * 26 + d - 1,
                q >= 1,
                1 <= d <= 26,
        ;
        assert(column_letters(n) == column_letters((q - 1) as nat).push(
            letter_at((d - 1) as nat),
        ));
        assert(column_letters(n) =~= s);
    }
}

/// The index of the first character at or behind `from` that is no upper-case letter.
pub open spec fn first_not_upper(s: Seq<char>, from: int) -> Option<int>
    decreases s.len() - from,
{
    if from < 0 || from >= s.len() {
        None
    } else if !is_upper(s[from]) {
        Some(from)
    } else {
        first_not_upper(s, from + 1)
    }
}

pub proof fn lemma_first_not_upper(s: Seq<char>, from: int)
    requires
        0 <= from <= s.len(),
    ensures
        match first_not_upper(s, from) {
            Some(k) => from <= k < s.len() && !is_upper(s[k]),
            None => forall|i: int| from <= i < s.len() ==> is_upper(#[trigger] s[i]),
        },
    decreases s.len() - from,
{
    if from < s.len() && is_upper(s[from]) {
        lemma_first_not_upper(s, from + 1);
    }
}

/// The zero-based index of the column that letters name. The text must not be empty, must
/// hold upper-case ASCII letters only, and must name an index that fits in a `usize`.
pub open spec fn spec_excel_column_to_index(col: Seq<char>) -> Result<usize, ErrorView> {
    if col.len() == 0 {
        Err(ErrorView::ParseError("Empty column reference"@))
    } else {
        match first_not_upper(col, 0) {
            Some(k) => Err(ErrorView::ParseError("Invalid column character: "@ + seq![col[k]])),
            None => if column_number(col) - 1 <= usize::MAX {
                Ok((column_number(col) - 1) as usize)
            } else {
                Err(ErrorView::ParseError("Column reference out of range"@))
            },
        }
    }
}

/// The view of a result that holds a plain value.
pub open spec fn plain_result<T>(r: Result<T, Error>) -> Result<T, ErrorView> {
    match r {
        Ok(v) => Ok(v),
        Err(e) => Err(e.deep_view()),
    }
}

pub proof fn lemma_column_number_prefix(s: Seq<char>, i: int)
    requires
        0 <= i <= s.len(),
    ensures
        column_number(s.take(i)) <= column_number(s),
    decreases s.len() - i,
{
    if i < s.len() {
        lemma_column_number_prefix(s, i + 1);
        assert(s.take(i + 1).drop_last() =~= s.take(i));
    } else {
        assert(s.take(i) =~= s);
    }
}

/// Converts column letters to a zero-based index: `A` to 0, `Z` to 25, `AA` to 26.
pub fn excel_column_to_index(col: &str) -> (r: Result<usize, Error>)
    ensures
        plain_result(r) == spec_excel_column_to_index(col@),
{
    let len = col.unicode_len();
    if len == 0 {
        return Err(Error::parse("Empty column reference"));
    }
    let mut i: usize = 0;
    while i < len
        invariant
            i <= len,
            len == col@.len(),
            first_not_upper(col@, i as int) == first_not_upper(col@, 0),
        decreases len - i,
    {
        let c = col.get_char(i);
        let v = c as u32;
        if v < 0x41 || v > 0x5A {
            let bad = col.substring_char(i, i + 1);
            assert(bad@ =~= seq![col@[i as int]]);
            return Err(Error::parse_with("Invalid column character: ", bad));
        }
        i += 1;
    }
    proof {
        lemma_first_not_upper(col@, 0);
        lemma_first_not_upper(col@, len as int);
    }
    let mut number: u128 = 0;
    let mut k: usize = 0;
    while k < len
        invariant
            k <= len,
            len == col@.len(),
            all_upper(col@),
            first_not_upper(col@, 0) is None,
            number == column_number(col@.take(k as int)),
            number <= usize::MAX + 1,
        decreases len - k,
    {
        let c = col.get_char(k);
        let d: u128 = (c as u32 - 0x40) as u128;
        proof {
            assert(col@.take(k + 1).drop_last() =~= col@.take(k as int));
        }
        number = number * 26 + d;
        if number > usize::MAX as u128 + 1 {
            proof {
                lemma_column_number_prefix(col@, k + 1);
            }
            return Err(Error::parse("Column reference out of range"));
        }
        k += 1;
    }
    assert(col@.take(k as int) =~= col@);
    proof {
        lemma_column_round_trip_letters(col@);
    }
    Ok((number - 1) as usize)
}

/// The bytes of the letters of a column.
pub open spec fn column_bytes(n: nat) -> Seq<u8>
    decreases n,
{
    if n < 26 {
        seq![(0x41 + n) as u8]
    } else {
        column_bytes((n / 26 - 1) as nat).push((0x41 + n % 26) as u8)
    }
}

pub proof fn lemma_column_bytes(n: nat)
    ensures
        is_ascii_bytes(column_bytes(n)),
        ascii_chars(column_bytes(n)) == column_letters(n),
    decreases n,
{
    if n >= 26 {
        lemma_column_bytes((n / 26 - 1) as nat);
        assert(ascii_chars(column_bytes(n)) =~= column_letters(n));
    } else {
        assert(ascii_chars(column_bytes(n)) =~= column_letters(n));
    }
}

/// Converts a zero-based column index to letters: 0 to `A`, 25 to `Z`, 26 to `AA`.
pub fn index_to_excel_column(index: usize) -> (r: String)
    ensures
        r@ == column_letters(index as nat),
{
    let mut rest: usize = index;
    let mut tail: Vec<u8> = Vec::new();
    while rest >= 26
        invariant
            column_bytes(rest as nat) + tail@ == column_bytes(index as nat),
        decreases rest,
    {
        let d: u8 = (rest % 26) as u8;
        let ghost before = tail@;
        tail.insert(0, 0x41 + d);
        proof {
            assert(column_bytes((rest / 26 - 1) as nat).push((0x41 + d) as u8) + before
                =~= column_bytes((rest / 26 - 1) as nat) + tail@);
        }
        rest = rest / 26 - 1;
    }
    let ghost before = tail@;
    tail.insert(0, 0x41 + (rest as u8));
    proof {
        assert(tail@ =~= column_bytes(rest as nat) + before);
        lemma_column_bytes(index as nat);
    }
    ascii_string(tail.as_slice())
}

/// Whether a character is an ASCII decimal digit.
pub open spec fn is_digit_char(c: char) -> bool {
    '0' <= c <= '9'
}

/// The index of the first decimal digit at or behind `from`.
pub open spec fn first_digit(s: Seq<char>, from: int) -> Option<int>
    decreases s.len() - from,
{
    if from < 0 || from >= s.len() {
        None
    } else if is_digit_char(s[from]) {
        Some(from)
    } else {
        first_digit(s, from + 1)
    }
}

/// The zero-based row and column that a cell reference such as `B5` names: the letters up
/// to the first digit name the column, the rest the row, counted from 1.
pub open spec fn spec_parse_cell_ref(text: Seq<char>) -> Result<(usize, usize), ErrorView> {
    if text.len() == 0 {
        Err(ErrorView::ParseError("Empty cell reference"@))
    } else {
        match first_digit(text, 0) {
            None => Err(ErrorView::ParseError("Invalid cell reference: "@ + text)),
            Some(k) => match spec_excel_column_to_index(text.take(k)) {
                Err(e) => Err(e),
                Ok(col) => match spec_parse_usize(encode_utf8(text.skip(k))) {
                    None => Err(ErrorView::ParseError("Invalid row number: "@ + text.skip(k))),
                    Some(row) => Ok(
                        (
                            if row == 0 {
                                0usize
                            } else {
                                (row - 1) as usize
                            },
                            col,
                        ),
                    ),
                },
            },
        }
    }
}

/// Parses a cell reference such as `A1`, `B5` or `AA10` into zero-based row and column.
pub fn parse_cell_ref(ref_str: &str) -> (r: Result<(usize, usize), Error>)
    ensures
        plain_result(r) == spec_parse_cell_ref(ref_str@),
{
    let len = ref_str.unicode_len();
    if len == 0 {
        return Err(Error::parse("Empty cell reference"));
    }
    let mut i: usize = 0;
    while i < len
        invariant
            i <= len,
            len == ref_str@.len(),
            first_digit(ref_str@, i as int) == first_digit(ref_str@, 0),
        decreases len - i,
    {
        let v = ref_str.get_char(i) as u32;
        if 0x30 <= v && v <= 0x39 {
            let col_text = ref_str.substring_char(0, i);
            let row_text = ref_str.substring_char(i, len);
            let col = match excel_column_to_index(col_text) {
                Ok(c) => c,
                Err(e) => {
                    return Err(e);
                },
            };
            return match parse_usize(row_text.as_bytes()) {
                Some(row) => Ok(
                    (
                        if row == 0 {
                            0
                        } else {
                            row - 1
                        },
                        col,
                    ),
                ),
                None => Err(Error::parse_with("Invalid row number: ", row_text)),
            };
        }
        i += 1;
    }
    Err(Error::parse_with("Invalid cell reference: ", ref_str))
}

/// Letters that name a column, read as an index and written again, are the same letters.
pub proof fn law_column_letters_round_trip(letters: Seq<char>)
    requires
        spec_excel_column_to_index(letters) is Ok,
    ensures
        column_letters(spec_excel_column_to_index(letters)->Ok_0 as nat) == letters,
{
    lemma_first_not_upper(letters, 0);
    lemma_column_round_trip_letters(letters);
}

/// A column index, written as letters and read again, is the same index.
pub proof fn law_column_index_round_trip(index: usize)
    ensures
        spec_excel_column_to_index(column_letters(index as nat)) == Ok::<usize, ErrorView>(index),
{
    let letters = column_letters(index as nat);
    lemma_column_letters_upper(index as nat);
    lemma_column_round_trip_index(index as nat);
    lemma_first_not_upper(letters, 0);
    match first_not_upper(letters, 0) {
        Some(k) => {
            assert(is_upper(letters[k]));
        },
        None => {},
    }
}

/// A tint of zero is the identity: the colour is `#` and the very hex digits that were
/// given, and a colour resolves under it as it does without a tint.
pub proof fn law_zero_tint_is_identity(
    hex: Seq<char>,
    val: Option<Seq<char>>,
    theme_color: Option<Seq<char>>,
    theme: ThemeView,
)
    ensures
        spec_apply_tint(hex, 0) == "#"@ + hex,
        spec_resolve_word_color(val, theme_color, Some(0i64), theme) == spec_resolve_word_color(
            val,
            theme_color,
            None,
            theme,
        ),
{
}

} // verus!
