//! Small helpers on text and bytes.

use vstd::prelude::*;

verus! {

/// `String::push` of the standard library appends one character.
pub assume_specification[ String::push ](s: &mut String, c: char)
    ensures
        final(s)@ == old(s)@.push(c),
;

/// Whether two byte slices hold the same bytes.
pub fn bytes_eq(a: &[u8], b: &[u8]) -> (r: bool)
    ensures
        r == (a@ == b@),
{
    if a.len() != b.len() {
        return false;
    }
    let mut i: usize = 0;
    while i < a.len()
        invariant
            a@.len() == b@.len(),
            i <= a@.len(),
            forall|j: int| 0 <= j < i ==> a@[j] == b@[j],
        decreases a@.len() - i,
    {
        if a[i] != b[i] {
            return false;
        }
        i += 1;
    }
    assert(a@ =~= b@);
    true
}

/// Whether two strings hold the same characters.
pub fn str_eq(a: &str, b: &str) -> (r: bool)
    ensures
        r == (a@ == b@),
{
    proof {
        vstd::utf8::encode_utf8_decode_utf8(a@);
        vstd::utf8::encode_utf8_decode_utf8(b@);
    }
    bytes_eq(a.as_bytes(), b.as_bytes())
}

/// Whether `c` is an ASCII letter or digit.
pub open spec fn is_ascii_alnum(c: char) -> bool {
    '0' <= c <= '9' || 'a' <= c <= 'z' || 'A' <= c <= 'Z'
}

/// `c` with an ASCII capital made small.
pub open spec fn ascii_lower(c: char) -> char {
    if 'A' <= c <= 'Z' {
        (c as u32 + 32) as char
    } else {
        c
    }
}

/// What a name is compared by: its ASCII letters and digits, in lower case.
pub open spec fn key_of(name: Seq<char>) -> Seq<char> {
    name.filter(|c: char| is_ascii_alnum(c)).map_values(|c: char| ascii_lower(c))
}

/// A name is the same in capitals and in small letters.
pub proof fn law_case_does_not_matter(name: Seq<char>)
    ensures
        key_of(name.map_values(|c: char| ascii_lower(c))) == key_of(name),
    decreases name.len(),
{
    let keep = |c: char| is_ascii_alnum(c);
    let lower = |c: char| ascii_lower(c);
    let small = name.map_values(lower);
    reveal(Seq::filter);
    if name.len() > 0 {
        law_case_does_not_matter(name.drop_last());
        assert(small.drop_last() =~= name.drop_last().map_values(lower));
        assert(small.last() == ascii_lower(name.last()));
        let a = small.drop_last().filter(keep);
        let b = name.drop_last().filter(keep);
        assert(a.map_values(lower) == b.map_values(lower));
        if is_ascii_alnum(name.last()) {
            assert(small.filter(keep) == a.push(small.last()));
            assert(name.filter(keep) == b.push(name.last()));
            assert(a.push(small.last()).map_values(lower) =~= a.map_values(lower).push(
                ascii_lower(small.last()),
            ));
            assert(b.push(name.last()).map_values(lower) =~= b.map_values(lower).push(
                ascii_lower(name.last()),
            ));
        }
    } else {
        assert(small =~= name);
    }
}

/// A character that is no letter and no digit may stand anywhere in a name.
pub proof fn law_separators_do_not_matter(before: Seq<char>, c: char, after: Seq<char>)
    requires
        !is_ascii_alnum(c),
    ensures
        key_of(before.push(c) + after) == key_of(before + after),
    decreases after.len(),
{
    let keep = |c: char| is_ascii_alnum(c);
    reveal(Seq::filter);
    let with = before.push(c) + after;
    let without = before + after;
    if after.len() == 0 {
        assert(with =~= before.push(c));
        assert(with.drop_last() =~= before);
        assert(without =~= before);
    } else {
        let rest = after.drop_last();
        law_separators_do_not_matter(before, c, rest);
        assert(with.drop_last() =~= before.push(c) + rest);
        assert(without.drop_last() =~= before + rest);
        assert(with.last() == after.last() && without.last() == after.last());
        let a = with.drop_last().filter(keep);
        let b = without.drop_last().filter(keep);
        let lower = |c: char| ascii_lower(c);
        if is_ascii_alnum(after.last()) {
            assert(a.push(after.last()).map_values(lower) =~= a.map_values(lower).push(
                ascii_lower(after.last()),
            ));
            assert(b.push(after.last()).map_values(lower) =~= b.map_values(lower).push(
                ascii_lower(after.last()),
            ));
        }
    }
}

/// Makes an ASCII capital small.
pub fn to_ascii_lower(c: char) -> (r: char)
    ensures
        r == ascii_lower(c),
{
    if 'A' <= c && c <= 'Z' {
        (c as u8 + 32) as char
    } else {
        c
    }
}

/// Keeps the ASCII letters and digits of a name, in lower case.
pub fn ascii_key(name: &str) -> (key: String)
    ensures
        key@ == key_of(name@),
{
    let ghost keep = |c: char| is_ascii_alnum(c);
    let ghost lower = |c: char| ascii_lower(c);
    let mut key = String::new();
    assert(name@.take(0).filter(keep) =~= Seq::<char>::empty()) by {
        reveal(Seq::filter);
    }
    assert(key@ =~= name@.take(0).filter(keep).map_values(lower));
    for c in it: name.chars()
        invariant
            it.seq() == name@,
            keep == (|c: char| is_ascii_alnum(c)),
            lower == (|c: char| ascii_lower(c)),
            key@ == name@.take(it.index()).filter(keep).map_values(lower),
    {
        let ghost i = it.index();
        proof {
            reveal(Seq::filter);
            assert(name@.take(i + 1).drop_last() =~= name@.take(i));
            assert(name@.take(i + 1).last() == c);
        }
        if ('0' <= c && c <= '9') || ('a' <= c && c <= 'z') || ('A' <= c && c <= 'Z') {
            key.push(to_ascii_lower(c));
            assert(name@.take(i + 1).filter(keep) == name@.take(i).filter(keep).push(c));
            assert(key@ =~= name@.take(i + 1).filter(keep).map_values(lower));
        } else {
            assert(name@.take(i + 1).filter(keep) == name@.take(i).filter(keep));
        }
    }
    assert(name@.take(name@.len() as int) =~= name@);
    key
}

/// Whether bytes are just this one.
pub fn is_byte(bytes: &[u8], a: u8) -> (r: bool)
    ensures
        r == (bytes@ == seq![a]),
{
    let r = bytes.len() == 1 && bytes[0] == a;
    assert(r ==> bytes@ =~= seq![a]);
    r
}

/// Whether bytes are just these two.
pub fn is_pair(bytes: &[u8], a: u8, b: u8) -> (r: bool)
    ensures
        r == (bytes@ == seq![a, b]),
{
    let r = bytes.len() == 2 && bytes[0] == a && bytes[1] == b;
    assert(r ==> bytes@ =~= seq![a, b]);
    assert(bytes@ == seq![a, b] ==> seq![a, b][0] == a && seq![a, b][1] == b);
    r
}

/// Whether bytes are just these three.
pub fn is_triple(bytes: &[u8], a: u8, b: u8, c: u8) -> (r: bool)
    ensures
        r == (bytes@ == seq![a, b, c]),
{
    let r = bytes.len() == 3 && bytes[0] == a && bytes[1] == b && bytes[2] == c;
    assert(r ==> bytes@ =~= seq![a, b, c]);
    assert(bytes@ == seq![a, b, c] ==> seq![a, b, c][0] == a && seq![a, b, c][1] == b && seq![
        a,
        b,
        c,
    ][2] == c);
    r
}

// ---- UTF-8 ----

/// What `String::from_utf8_lossy` of the standard library makes of bytes.
pub uninterp spec fn lossy(bytes: Seq<u8>) -> Seq<char>;

/// Calls `String::from_utf8_lossy`. Valid UTF-8 is decoded; what replacement
/// characters stand for other bytes is left open.
#[verifier::external_body]
pub(crate) fn lossy_text(bytes: &[u8]) -> (text: String)
    ensures
        text@ == lossy(bytes@),
        vstd::utf8::valid_utf8(bytes@) ==> text@ == vstd::utf8::decode_utf8(bytes@),
{
    String::from_utf8_lossy(bytes).into_owned()
}

/// Calls `std::str::from_utf8`: text for valid UTF-8, and only for it.
#[verifier::external_body]
pub(crate) fn utf8_text(bytes: &[u8]) -> (text: Option<&str>)
    ensures
        match text {
            Some(s) => vstd::utf8::valid_utf8(bytes@) && s@ == vstd::utf8::decode_utf8(bytes@),
            None => !vstd::utf8::valid_utf8(bytes@),
        },
{
    match std::str::from_utf8(bytes) {
        Ok(s) => Some(s),
        Err(_) => None,
    }
}

/// The characters of a string.
pub fn chars_of(text: &str) -> (chars: Vec<char>)
    ensures
        chars@ == text@,
{
    let mut chars: Vec<char> = Vec::new();
    for c in it: text.chars()
        invariant
            it.seq() == text@,
            chars@ == text@.take(it.index()),
    {
        let ghost i = it.index();
        chars.push(c);
        assert(text@.take(i + 1) =~= text@.take(i).push(c));
    }
    assert(text@.take(text@.len() as int) =~= text@);
    chars
}

// ---- numbers ----

/// A number in decimal digits.
pub open spec fn decimal(n: nat) -> Seq<u8>
    decreases n,
{
    if n < 10 {
        seq![(0x30 + n) as u8]
    } else {
        decimal(n / 10).push((0x30 + n % 10) as u8)
    }
}

/// Appends a number in decimal digits.
pub fn push_decimal(out: &mut Vec<u8>, n: usize)
    ensures
        final(out)@ == old(out)@ + decimal(n as nat),
    decreases n,
{
    let ghost start = out@;
    if n < 10 {
        out.push(0x30 + n as u8);
        assert(out@ =~= start + decimal(n as nat));
    } else {
        push_decimal(out, n / 10);
        out.push(0x30 + (n % 10) as u8);
        assert(out@ =~= start + decimal(n as nat));
    }
}

pub open spec fn is_digit(c: char) -> bool {
    '0' <= c <= '9'
}

pub open spec fn all_digits(text: Seq<char>) -> bool {
    forall|i: int| 0 <= i < text.len() ==> is_digit(#[trigger] text[i])
}

/// The number that decimal digits write.
pub open spec fn digits_value(digits: Seq<char>) -> int
    decreases digits.len(),
{
    if digits.len() == 0 {
        0
    } else {
        10 * digits_value(digits.drop_last()) + (digits.last() as int - '0' as int)
    }
}

/// The number that text writes: an optional sign and at least one digit, and
/// nothing else. A number outside 32 bits with sign is none.
pub open spec fn parsed_i32(text: Seq<char>) -> Option<i32> {
    let signed = text.len() > 0 && (text[0] == '-' || text[0] == '+');
    let digits = if signed {
        text.skip(1)
    } else {
        text
    };
    let value = if signed && text[0] == '-' {
        -digits_value(digits)
    } else {
        digits_value(digits)
    };
    if digits.len() > 0 && all_digits(digits) && i32::MIN <= value <= i32::MAX {
        Some(value as i32)
    } else {
        None
    }
}

/// Whether a character is white space, as Unicode has it.
pub open spec fn is_white(c: char) -> bool {
    ||| '\u{9}' <= c <= '\u{d}'
    ||| c == '\u{20}'
    ||| c == '\u{85}'
    ||| c == '\u{a0}'
    ||| c == '\u{1680}'
    ||| '\u{2000}' <= c <= '\u{200a}'
    ||| c == '\u{2028}'
    ||| c == '\u{2029}'
    ||| c == '\u{202f}'
    ||| c == '\u{205f}'
    ||| c == '\u{3000}'
}

/// Text without the white space at its start.
pub open spec fn without_leading(text: Seq<char>) -> Seq<char>
    decreases text.len(),
{
    if text.len() > 0 && is_white(text[0]) {
        without_leading(text.skip(1))
    } else {
        text
    }
}

/// Text without the white space at its end.
pub open spec fn without_trailing(text: Seq<char>) -> Seq<char>
    decreases text.len(),
{
    if text.len() > 0 && is_white(text.last()) {
        without_trailing(text.drop_last())
    } else {
        text
    }
}

/// Text without the white space round it.
pub open spec fn trimmed(text: Seq<char>) -> Seq<char> {
    without_trailing(without_leading(text))
}

/// Whether a character is white space.
pub fn white(c: char) -> (r: bool)
    ensures
        r == is_white(c),
{
    ('\u{9}' <= c && c <= '\u{d}') || c == '\u{20}' || c == '\u{85}' || c == '\u{a0}' || c
        == '\u{1680}' || ('\u{2000}' <= c && c <= '\u{200a}') || c == '\u{2028}' || c
        == '\u{2029}' || c == '\u{202f}' || c == '\u{205f}' || c == '\u{3000}'
}

/// Takes the white space from both ends.
pub fn trim(text: &Vec<char>) -> (out: Vec<char>)
    ensures
        out@ == trimmed(text@),
{
    let mut from: usize = 0;
    assert(text@.skip(0) =~= text@);
    while from < text.len() && white(text[from])
        invariant
            from <= text@.len(),
            without_leading(text@.skip(from as int)) == without_leading(text@),
        decreases text@.len() - from,
    {
        assert(text@.skip(from as int).skip(1) =~= text@.skip(from + 1));
        from += 1;
    }
    let mut to: usize = text.len();
    assert(text@.subrange(from as int, to as int) =~= text@.skip(from as int));
    while to > from && white(text[to - 1])
        invariant
            from <= to <= text@.len(),
            without_trailing(text@.subrange(from as int, to as int)) == trimmed(text@),
        decreases to,
    {
        assert(text@.subrange(from as int, to as int).drop_last() =~= text@.subrange(
            from as int,
            to - 1,
        ));
        to -= 1;
    }
    let mut out: Vec<char> = Vec::new();
    let mut i: usize = from;
    while i < to
        invariant
            from <= i <= to <= text@.len(),
            out@ == text@.subrange(from as int, i as int),
        decreases to - i,
    {
        out.push(text[i]);
        i += 1;
        assert(text@.subrange(from as int, i as int) =~= text@.subrange(from as int, i - 1).push(
            text@[i - 1],
        ));
    }
    out
}

/// Reads a number of 32 bits with sign.
pub fn parse_i32(text: &Vec<char>) -> (value: Option<i32>)
    ensures
        value == parsed_i32(text@),
{
    let signed = text.len() > 0 && (text[0] == '-' || text[0] == '+');
    let negative = text.len() > 0 && text[0] == '-';
    let from: usize = if signed {
        1
    } else {
        0
    };
    let ghost digits = text@.skip(from as int);
    assert(!signed ==> digits =~= text@);
    if from == text.len() {
        return None;
    }
    let mut value: i64 = 0;
    let mut large = false;
    let mut i: usize = from;
    assert(digits.take(0) =~= Seq::empty());
    while i < text.len()
        invariant
            from <= i <= text@.len(),
            digits == text@.skip(from as int),
            signed == (text@.len() > 0 && (text@[0] == '-' || text@[0] == '+')),
            signed ==> from == 1,
            !signed ==> from == 0 && digits == text@,
            forall|j: int| 0 <= j < i - from ==> is_digit(#[trigger] digits[j]),
            0 <= value <= 0x8000_0000,
            large ==> digits_value(digits.take(i - from)) > 0x8000_0000,
            !large ==> value == digits_value(digits.take(i - from)),
        decreases text@.len() - i,
    {
        let c = text[i];
        assert(digits[i - from] == c);
        if !('0' <= c && c <= '9') {
            assert(!is_digit(digits[i - from]));
            assert(!all_digits(digits));
            return None;
        }
        proof {
            let next = digits.take(i - from + 1);
            assert(next.drop_last() =~= digits.take(i - from));
            assert(next.last() == c);
        }
        if !large {
            let next: i64 = 10 * value + (c as u8 - 0x30) as i64;
            if next > 0x8000_0000 {
                large = true;
            } else {
                value = next;
            }
        }
        i += 1;
    }
    assert(digits.take(i - from) =~= digits);
    if large {
        None
    } else if negative {
        Some((-value) as i32)
    } else if value <= 0x7fff_ffff {
        Some(value as i32)
    } else {
        None
    }
}

/// A number in decimal digits, as text.
pub open spec fn decimal_text(n: nat) -> Seq<char> {
    decimal(n).map_values(|b: u8| b as char)
}

/// Appends text to a string.
pub fn push_text(out: &mut String, text: &str)
    ensures
        final(out)@ == old(out)@ + text@,
{
    let ghost start = out@;
    assert(start + text@.take(0) =~= start);
    for c in it: text.chars()
        invariant
            it.seq() == text@,
            out@ == start + text@.take(it.index()),
    {
        let ghost i = it.index();
        out.push(c);
        assert(start + text@.take(i + 1) =~= (start + text@.take(i)).push(c));
    }
    assert(text@.take(text@.len() as int) =~= text@);
}

/// Appends a number in decimal digits to a string.
pub fn push_decimal_text(out: &mut String, n: usize)
    ensures
        final(out)@ == old(out)@ + decimal_text(n as nat),
    decreases n,
{
    let ghost start = out@;
    if n < 10 {
        out.push((0x30 + n as u8) as char);
        assert(out@ =~= start + decimal_text(n as nat));
    } else {
        push_decimal_text(out, n / 10);
        out.push((0x30 + (n % 10) as u8) as char);
        assert(out@ =~= start + decimal_text(n as nat));
    }
}

} // verus!
