//! Numbers and lists as the attributes of a record write them.
//!
//! A number is written in decimal digits, with `+` in front if one likes and,
//! where the number may be negative, with `-`. Nothing else may stand in it:
//! no blank, no separator. A number is written out without leading zeros and
//! without `+`. A list is written with commas between its pieces; an empty
//! text is a list of one empty piece.

use vstd::prelude::*;
use vstd::string::*;

verus! {

/// The decimal digits.
pub open spec fn is_digit(c: char) -> bool {
    '0' as u32 <= c as u32 <= '9' as u32
}

/// The number that a digit stands for.
pub open spec fn digit_value(c: char) -> nat {
    (c as u32 - '0' as u32) as nat
}

/// Whether a text is made of digits only.
pub open spec fn all_digits(s: Seq<char>) -> bool {
    forall|i: int| 0 <= i < s.len() ==> is_digit(#[trigger] s[i])
}

/// The number that a text of digits writes.
pub open spec fn decimal_value(s: Seq<char>) -> nat
    decreases s.len(),
{
    if s.len() == 0 {
        0
    } else {
        decimal_value(s.drop_last()) * 10 + digit_value(s.last())
    }
}

/// The number up to `max` that a text writes without a minus sign, if it
/// writes one.
pub open spec fn parse_unsigned(s: Seq<char>, max: nat) -> Option<nat> {
    let digits = if s.len() > 0 && s[0] == '+' {
        s.drop_first()
    } else {
        s
    };
    if digits.len() > 0 && all_digits(digits) && decimal_value(digits) <= max {
        Some(decimal_value(digits))
    } else {
        None
    }
}

/// The number from `min` to `max` that a text writes, if it writes one.
pub open spec fn parse_signed(s: Seq<char>, min: int, max: int) -> Option<int> {
    let signed = s.len() > 0 && (s[0] == '+' || s[0] == '-');
    let digits = if signed {
        s.drop_first()
    } else {
        s
    };
    let value = if signed && s[0] == '-' {
        -(decimal_value(digits) as int)
    } else {
        decimal_value(digits) as int
    };
    if digits.len() > 0 && all_digits(digits) && min <= value <= max {
        Some(value)
    } else {
        None
    }
}

/// The 8-bit number that a text writes.
pub open spec fn parse_u8_text(s: Seq<char>) -> Option<u8> {
    match parse_unsigned(s, 0xff) {
        Some(v) => Some(v as u8),
        None => None,
    }
}

/// The 16-bit number that a text writes.
pub open spec fn parse_u16_text(s: Seq<char>) -> Option<u16> {
    match parse_unsigned(s, 0xffff) {
        Some(v) => Some(v as u16),
        None => None,
    }
}

/// The signed 32-bit number that a text writes.
pub open spec fn parse_i32_text(s: Seq<char>) -> Option<i32> {
    match parse_signed(s, -0x8000_0000, 0x7fff_ffff) {
        Some(v) => Some(v as i32),
        None => None,
    }
}

/// Where the first comma of a text stands; its length if it has none.
pub open spec fn first_comma(s: Seq<char>) -> int
    decreases s.len(),
{
    if s.len() == 0 || s[0] == ',' {
        0
    } else {
        1 + first_comma(s.drop_first())
    }
}

/// The pieces between the commas of a text, in order: one more than it has
/// commas.
pub open spec fn split_commas(s: Seq<char>) -> Seq<Seq<char>>
    decreases s.len(),
    via split_commas_decreases
{
    let at = first_comma(s);
    if at >= s.len() {
        seq![s]
    } else {
        seq![s.take(at)] + split_commas(s.skip(at + 1))
    }
}

#[via_fn]
proof fn split_commas_decreases(s: Seq<char>) {
    lemma_first_comma(s);
}

/// The first comma stands inside the text or, if there is none, at its end,
/// and no comma stands before it.
pub proof fn lemma_first_comma(s: Seq<char>)
    ensures
        0 <= first_comma(s) <= s.len(),
        first_comma(s) < s.len() ==> s[first_comma(s)] == ',',
        forall|i: int| 0 <= i < first_comma(s) ==> s[i] != ',',
    decreases s.len(),
{
    if s.len() == 0 || s[0] == ',' {
    } else {
        let rest = s.drop_first();
        lemma_first_comma(rest);
        assert forall|i: int| 0 <= i < first_comma(s) implies s[i] != ',' by {
            if i > 0 {
                assert(s[i] == rest[i - 1]);
            }
        }
    }
}

/// A text without a comma is one piece, and a text that begins with such a
/// piece and a comma is that piece and the pieces of what follows the
/// comma.
pub proof fn lemma_split_commas_step(piece: Seq<char>, rest: Seq<char>)
    requires
        forall|i: int| 0 <= i < piece.len() ==> piece[i] != ',',
    ensures
        split_commas(piece) == seq![piece],
        split_commas(piece + seq![','] + rest) == seq![piece] + split_commas(rest),
{
    lemma_first_comma(piece);
    assert(first_comma(piece) == piece.len()) by {
        if first_comma(piece) < piece.len() {
            assert(piece[first_comma(piece)] == ',');
        }
    }
    let whole = piece + seq![','] + rest;
    let at = piece.len() as int;
    lemma_first_comma(whole);
    assert(whole[at] == ',');
    assert(first_comma(whole) == at) by {
        if first_comma(whole) < at {
            assert(whole[first_comma(whole)] == piece[first_comma(whole)]);
        }
    }
    assert(whole.take(at) =~= piece);
    assert(whole.skip(at + 1) =~= rest);
}

/// A text of digits writes no smaller number than any of its beginnings.
proof fn lemma_decimal_value_grows(s: Seq<char>, n: int)
    requires
        0 <= n <= s.len(),
    ensures
        decimal_value(s.take(n)) <= decimal_value(s),
    decreases s.len() - n,
{
    if n == s.len() {
        assert(s.take(n) =~= s);
    } else {
        lemma_decimal_value_grows(s, n + 1);
        assert(s.take(n + 1).drop_last() =~= s.take(n));
    }
}

/// The characters of a text.
pub fn chars_of(s: &str) -> (chars: Vec<char>)
    ensures
        chars@ == s@,
{
    let n = s.unicode_len();
    let mut chars: Vec<char> = Vec::new();
    let mut i: usize = 0;
    while i < n
        invariant
            n == s@.len(),
            i <= n,
            chars@ == s@.take(i as int),
        decreases n - i,
    {
        chars.push(s.get_char(i));
        assert(chars@ =~= s@.take(i + 1));
        i = i + 1;
    }
    assert(s@.take(n as int) =~= s@);
    chars
}

/// Whether a text is the given one.
pub fn text_is(chars: &[char], literal: &str) -> (b: bool)
    ensures
        b == (chars@ == literal@),
{
    let n = literal.unicode_len();
    if chars.len() != n {
        return false;
    }
    let mut i: usize = 0;
    while i < n
        invariant
            i <= n,
            n == literal@.len(),
            n == chars@.len(),
            forall|k: int| 0 <= k < i ==> chars@[k] == literal@[k],
        decreases n - i,
    {
        if chars[i] != literal.get_char(i) {
            return false;
        }
        i = i + 1;
    }
    assert(chars@ =~= literal@);
    true
}

/// Reads the digits from `from` on as a number up to `max`.
fn parse_digits(chars: &[char], from: usize, max: u64) -> (r: Option<u64>)
    requires
        from <= chars@.len(),
        max <= 0xffff_ffff,
    ensures
        r == ({
            let digits = chars@.skip(from as int);
            if digits.len() > 0 && all_digits(digits) && decimal_value(digits) <= max {
                Some(decimal_value(digits) as u64)
            } else {
                None
            }
        }),
{
    let ghost digits = chars@.skip(from as int);
    if from == chars.len() {
        return None;
    }
    let mut value: u64 = 0;
    let mut i: usize = from;
    assert(digits.take(0) =~= Seq::<char>::empty());
    while i < chars.len()
        invariant
            from <= i <= chars@.len(),
            digits == chars@.skip(from as int),
            max <= 0xffff_ffff,
            all_digits(digits.take(i - from)),
            value == decimal_value(digits.take(i - from)),
            value <= max,
        decreases chars@.len() - i,
    {
        let c = chars[i];
        let code = c as u32;
        assert(digits[i - from] == c);
        if code < 48 || code > 57 {
            return None;
        }
        let digit = (code - 48) as u64;
        let ghost before = digits.take(i - from);
        let ghost now = digits.take(i - from + 1);
        proof {
            assert(now.drop_last() =~= before);
            assert(now.last() == c);
            assert(digit == digit_value(c));
            assert forall|k: int| 0 <= k < now.len() implies is_digit(#[trigger] now[k]) by {
                if k < before.len() {
                    assert(before[k] == now[k]);
                }
            }
        }
        value = value * 10 + digit;
        if value > max {
            proof {
                lemma_decimal_value_grows(digits, i - from + 1);
            }
            return None;
        }
        i = i + 1;
    }
    assert(digits.take(digits.len() as int) =~= digits);
    Some(value)
}

/// Whether the text begins with `+`.
fn has_plus(chars: &[char]) -> (b: bool)
    ensures
        b == (chars@.len() > 0 && chars@[0] == '+'),
{
    chars.len() > 0 && chars[0] == '+'
}

/// Whether the text begins with `-`.
fn has_minus(chars: &[char]) -> (b: bool)
    ensures
        b == (chars@.len() > 0 && chars@[0] == '-'),
{
    chars.len() > 0 && chars[0] == '-'
}

/// Reads an 8-bit number.
pub fn parse_u8(chars: &[char]) -> (r: Option<u8>)
    ensures
        r == parse_u8_text(chars@),
{
    let from: usize = if has_plus(chars) {
        1
    } else {
        0
    };
    assert(chars@.skip(0) =~= chars@);
    match parse_digits(chars, from, 0xff) {
        Some(v) => Some(v as u8),
        None => None,
    }
}

/// Reads a 16-bit number.
pub fn parse_u16(chars: &[char]) -> (r: Option<u16>)
    ensures
        r == parse_u16_text(chars@),
{
    let from: usize = if has_plus(chars) {
        1
    } else {
        0
    };
    assert(chars@.skip(0) =~= chars@);
    match parse_digits(chars, from, 0xffff) {
        Some(v) => Some(v as u16),
        None => None,
    }
}

/// Reads a signed 32-bit number.
pub fn parse_i32(chars: &[char]) -> (r: Option<i32>)
    ensures
        r == parse_i32_text(chars@),
{
    assert(chars@.skip(0) =~= chars@);
    if has_minus(chars) {
        match parse_digits(chars, 1, 0x8000_0000) {
            Some(v) => Some((0 - (v as i64)) as i32),
            None => None,
        }
    } else {
        let from: usize = if has_plus(chars) {
            1
        } else {
            0
        };
        match parse_digits(chars, from, 0x7fff_ffff) {
            Some(v) => Some(v as i32),
            None => None,
        }
    }
}

/// The texts that a sequence of character vectors holds.
pub open spec fn texts(pieces: Seq<Vec<char>>) -> Seq<Seq<char>> {
    pieces.map_values(|piece: Vec<char>| piece@)
}

/// Cuts a text at its commas.
pub fn split_at_commas(chars: &[char]) -> (pieces: Vec<Vec<char>>)
    ensures
        texts(pieces@) == split_commas(chars@),
        pieces@.len() >= 1,
{
    let mut pieces: Vec<Vec<char>> = Vec::new();
    let mut piece: Vec<char> = Vec::new();
    let ghost mut start: int = 0;
    let mut i: usize = 0;
    assert(chars@.skip(0) =~= chars@);
    assert(texts(pieces@) =~= Seq::<Seq<char>>::empty());
    while i < chars.len()
        invariant
            0 <= start <= i <= chars@.len(),
            piece@ == chars@.subrange(start, i as int),
            forall|k: int| start <= k < i ==> chars@[k] != ',',
            split_commas(chars@) == texts(pieces@) + split_commas(chars@.skip(start)),
        decreases chars@.len() - i,
    {
        let c = chars[i];
        if c == ',' {
            proof {
                let rest = chars@.skip(start);
                lemma_first_comma(rest);
                assert(first_comma(rest) == i - start) by {
                    if first_comma(rest) < i - start {
                        assert(rest[first_comma(rest)] == chars@[start + first_comma(rest)]);
                    } else if first_comma(rest) > i - start {
                        assert(rest[i - start] == ',');
                    }
                }
                assert(rest.take(i - start) =~= piece@);
                assert(rest.skip(i - start + 1) =~= chars@.skip(i + 1));
            }
            let ghost before = texts(pieces@);
            pieces.push(piece);
            assert(texts(pieces@) =~= before.push(piece@));
            piece = Vec::new();
            proof {
                start = i + 1;
            }
            assert(piece@ =~= chars@.subrange(start, i + 1));
        } else {
            piece.push(c);
            assert(piece@ =~= chars@.subrange(start, i + 1));
        }
        i = i + 1;
    }
    proof {
        let rest = chars@.skip(start);
        lemma_first_comma(rest);
        assert(first_comma(rest) == rest.len()) by {
            if first_comma(rest) < rest.len() {
                assert(rest[first_comma(rest)] == chars@[start + first_comma(rest)]);
            }
        }
        assert(rest =~= piece@);
    }
    let ghost before = texts(pieces@);
    pieces.push(piece);
    assert(texts(pieces@) =~= before.push(piece@));
    pieces
}

/// The digit of a number below ten.
pub open spec fn digit_char(d: nat) -> char {
    if d == 0 {
        '0'
    } else if d == 1 {
        '1'
    } else if d == 2 {
        '2'
    } else if d == 3 {
        '3'
    } else if d == 4 {
        '4'
    } else if d == 5 {
        '5'
    } else if d == 6 {
        '6'
    } else if d == 7 {
        '7'
    } else if d == 8 {
        '8'
    } else {
        '9'
    }
}

/// A natural number in decimal digits, without leading zeros.
pub open spec fn digits_text(n: nat) -> Seq<char>
    decreases n,
{
    if n < 10 {
        seq![digit_char(n)]
    } else {
        digits_text(n / 10).push(digit_char(n % 10))
    }
}

/// A number in decimal digits, with `-` in front where it is negative.
pub open spec fn decimal_text(n: int) -> Seq<char> {
    if n < 0 {
        seq!['-'] + digits_text((-n) as nat)
    } else {
        digits_text(n as nat)
    }
}

/// The digits of a number are digits, at least one, and write the number.
pub proof fn lemma_digits_text(n: nat)
    ensures
        digits_text(n).len() >= 1,
        all_digits(digits_text(n)),
        decimal_value(digits_text(n)) == n,
    decreases n,
{
    if n < 10 {
        let s = digits_text(n);
        assert(s.drop_last() =~= Seq::<char>::empty());
        assert(decimal_value(s.drop_last()) == 0);
        assert(digit_value(digit_char(n)) == n);
    } else {
        lemma_digits_text(n / 10);
        let front = digits_text(n / 10);
        let s = digits_text(n);
        assert(s.drop_last() =~= front);
        assert(digit_value(digit_char(n % 10)) == n % 10);
        assert forall|i: int| 0 <= i < s.len() implies is_digit(#[trigger] s[i]) by {
            if i < front.len() {
                assert(s[i] == front[i]);
            }
        }
    }
}

/// A number that is written out is read back as itself.
pub proof fn lemma_decimal_round_trip(n: i32)
    ensures
        parse_i32_text(decimal_text(n as int)) == Some(n),
{
    if n < 0 {
        let digits = digits_text((-n) as nat);
        lemma_digits_text((-n) as nat);
        let s = decimal_text(n as int);
        assert(s[0] == '-');
        assert(s.drop_first() =~= digits);
    } else {
        lemma_digits_text(n as nat);
        let s = decimal_text(n as int);
        assert(is_digit(s[0]));
    }
}

/// The digit of a number below ten, as a text.
fn digit_str(d: u8) -> (s: &'static str)
    requires
        d < 10,
    ensures
        s@ == seq![digit_char(d as nat)],
{
    proof {
        reveal_strlit("0");
        reveal_strlit("1");
        reveal_strlit("2");
        reveal_strlit("3");
        reveal_strlit("4");
        reveal_strlit("5");
        reveal_strlit("6");
        reveal_strlit("7");
        reveal_strlit("8");
        reveal_strlit("9");
    }
    let s = if d == 0 {
        "0"
    } else if d == 1 {
        "1"
    } else if d == 2 {
        "2"
    } else if d == 3 {
        "3"
    } else if d == 4 {
        "4"
    } else if d == 5 {
        "5"
    } else if d == 6 {
        "6"
    } else if d == 7 {
        "7"
    } else if d == 8 {
        "8"
    } else {
        "9"
    };
    assert(s@ =~= seq![digit_char(d as nat)]);
    s
}

/// Writes a natural number in decimal digits.
pub fn digits_string(n: u64) -> (s: String)
    ensures
        s@ == digits_text(n as nat),
    decreases n,
{
    if n < 10 {
        String::from_str(digit_str(n as u8))
    } else {
        let mut s = digits_string(n / 10);
        s.append(digit_str((n % 10) as u8));
        assert(s@ =~= digits_text(n as nat));
        s
    }
}

/// Writes a number in decimal digits.
pub fn decimal_string(n: i32) -> (s: String)
    ensures
        s@ == decimal_text(n as int),
{
    if n < 0 {
        proof {
            reveal_strlit("-");
        }
        let mut s = String::from_str("-");
        let digits = digits_string((0 - n as i64) as u64);
        s.append(digits.as_str());
        assert(s@ =~= decimal_text(n as int));
        s
    } else {
        digits_string(n as u64)
    }
}

} // verus!
