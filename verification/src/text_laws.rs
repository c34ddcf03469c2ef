//! What holds of numbers and names as text.

use vstd::prelude::*;

verus! {

// ---- numbers ----

/// A number is written with digits, the first of them no zero unless it is the only
/// one, and the digits give the number back.
pub proof fn law_written_number_can_be_read(n: nat)
    ensures
        crate::text::decimal_text(n).len() > 0,
        crate::text::all_digits(crate::text::decimal_text(n)),
        crate::text::digits_value(crate::text::decimal_text(n)) == n,
        n > 0 ==> crate::text::decimal_text(n)[0] != '0',
        n == 0 ==> crate::text::decimal_text(n) == seq!['0'],
    decreases n,
{
    let text = crate::text::decimal_text(n);
    if n < 10 {
        let digit = (0x30 + n) as u8;
        assert(crate::text::decimal(n) =~= seq![digit]);
        assert(text =~= seq![digit as char]);
        assert(text.drop_last() =~= Seq::<char>::empty());
        assert(crate::text::digits_value(text.drop_last()) == 0);
        assert(crate::text::is_digit(text[0]));
        if n == 0 {
            assert(text =~= seq!['0']);
        }
    } else {
        let head = crate::text::decimal_text(n / 10);
        law_written_number_can_be_read(n / 10);
        let digit = (0x30 + n % 10) as u8;
        assert(text =~= head.push(digit as char));
        assert(text.drop_last() =~= head);
        assert(crate::text::is_digit(digit as char));
        assert forall|i: int| 0 <= i < text.len() implies crate::text::is_digit(
            #[trigger] text[i],
        ) by {
            if i < head.len() {
                assert(crate::text::is_digit(head[i]));
            }
        }
        assert(text[0] == head[0]);
    }
}

/// A number that is written in decimal digits is read as that number, with a minus sign
/// before it as its opposite, and with a plus sign as itself.
pub proof fn law_number_is_read_as_it_is_written(n: nat)
    ensures
        ({
            let text = crate::text::decimal_text(n);
            &&& n <= i32::MAX ==> crate::text::parsed_i32(text) == Some(n as i32)
            &&& n <= i32::MAX ==> crate::text::parsed_i32(seq!['+'] + text) == Some(n as i32)
            &&& n <= 0x8000_0000 ==> crate::text::parsed_i32(seq!['-'] + text) == Some(
                (-(n as int)) as i32,
            )
            &&& n > i32::MAX ==> crate::text::parsed_i32(text) is None
            &&& n > 0x8000_0000 ==> crate::text::parsed_i32(seq!['-'] + text) is None
        }),
{
    law_written_number_can_be_read(n);
    let text = crate::text::decimal_text(n);
    assert(crate::text::is_digit(text[0]));
    assert((seq!['+'] + text).skip(1) =~= text);
    assert((seq!['-'] + text).skip(1) =~= text);
}

/// Text that is empty, or only a sign, or holds anything but digits after the sign, is
/// no number.
pub proof fn law_other_text_is_no_number(text: Seq<char>, i: int)
    ensures
        crate::text::parsed_i32(Seq::empty()) is None,
        crate::text::parsed_i32(seq!['-']) is None,
        crate::text::parsed_i32(seq!['+']) is None,
        1 <= i < text.len() && !('0' <= text[i] <= '9') ==> crate::text::parsed_i32(text) is None,
        text.len() > 0 && !('0' <= text[0] <= '9') && text[0] != '-' && text[0] != '+'
            ==> crate::text::parsed_i32(text) is None,
{
    assert(seq!['-'].skip(1).len() == 0);
    assert(seq!['+'].skip(1).len() == 0);
    if 1 <= i < text.len() && !('0' <= text[i] <= '9') {
        assert(!crate::text::is_digit(text[i]));
        assert(text.skip(1)[i - 1] == text[i]);
        assert(!crate::text::is_digit(text.skip(1)[i - 1]));
    }
    if text.len() > 0 {
        assert(!('0' <= text[0] <= '9') ==> !crate::text::is_digit(text[0]));
    }
}

// ---- white space ----

/// Whether all of a text is white space.
pub open spec fn only_white(text: Seq<char>) -> bool {
    forall|i: int| 0 <= i < text.len() ==> crate::text::is_white(#[trigger] text[i])
}

/// In ASCII the space, the tab and the line ends are white space, and nothing else is.
/// Beyond it spaces of all widths are; letters and digits nowhere are.
pub proof fn law_white_space_shows_nothing(c: char)
    ensures
        c < '\u{80}' ==> (crate::text::is_white(c) <==> c == ' ' || c == '\t' || c == '\n' || c
            == '\r' || c == '\u{b}' || c == '\u{c}'),
        c == '\u{a0}' || c == '\u{85}' || c == '\u{2003}' || c == '\u{3000}' || c == '\u{2028}'
            ==> crate::text::is_white(c),
        crate::text::is_ascii_alnum(c) ==> !crate::text::is_white(c),
        crate::text::is_white(c) ==> c <= '\u{3000}',
{
}

proof fn lemma_leading(before: Seq<char>, rest: Seq<char>)
    requires
        only_white(before),
        rest.len() > 0 ==> !crate::text::is_white(rest[0]),
    ensures
        crate::text::without_leading(before + rest) == rest,
    decreases before.len(),
{
    let all = before + rest;
    if before.len() > 0 {
        assert(all[0] == before[0]);
        assert(crate::text::is_white(before[0]));
        assert(all.skip(1) =~= before.skip(1) + rest);
        assert forall|i: int| 0 <= i < before.skip(1).len() implies crate::text::is_white(
            #[trigger] before.skip(1)[i],
        ) by {
            assert(crate::text::is_white(before[i + 1]));
        }
        lemma_leading(before.skip(1), rest);
    } else {
        assert(all =~= rest);
    }
}

proof fn lemma_trailing(rest: Seq<char>, after: Seq<char>)
    requires
        only_white(after),
        rest.len() > 0 ==> !crate::text::is_white(rest.last()),
    ensures
        crate::text::without_trailing(rest + after) == rest,
    decreases after.len(),
{
    let all = rest + after;
    if after.len() > 0 {
        assert(all.last() == after.last());
        assert(crate::text::is_white(after[after.len() - 1]));
        assert(all.drop_last() =~= rest + after.drop_last());
        assert forall|i: int| 0 <= i < after.drop_last().len() implies crate::text::is_white(
            #[trigger] after.drop_last()[i],
        ) by {
            assert(crate::text::is_white(after[i]));
        }
        lemma_trailing(rest, after.drop_last());
    } else {
        assert(all =~= rest);
    }
}

/// Trimming takes the white space round a text, and leaves the white space inside it.
pub proof fn law_trimming_takes_what_is_round_the_text(
    before: Seq<char>,
    text: Seq<char>,
    after: Seq<char>,
)
    requires
        only_white(before),
        only_white(after),
        text.len() > 0,
        !crate::text::is_white(text[0]),
        !crate::text::is_white(text.last()),
    ensures
        crate::text::trimmed(before + text + after) == text,
{
    assert(before + text + after =~= before + (text + after));
    assert((text + after)[0] == text[0]);
    lemma_leading(before, text + after);
    lemma_trailing(text, after);
}

/// The exit code that a shell reports is the number that it writes, whatever white
/// space it writes round it; a number with a minus sign is negative.
pub proof fn law_exit_code_is_the_number_that_is_written(
    before: Seq<char>,
    n: nat,
    after: Seq<char>,
)
    requires
        only_white(before),
        only_white(after),
        n <= i32::MAX,
    ensures
        crate::control::exit_code(
            vstd::utf8::encode_utf8(before + crate::text::decimal_text(n) + after),
        ) == Some(n as i32),
        crate::control::exit_code(
            vstd::utf8::encode_utf8(before + (seq!['-'] + crate::text::decimal_text(n)) + after),
        ) == Some((-(n as int)) as i32),
{
    let text = crate::text::decimal_text(n);
    let minus = seq!['-'] + text;
    law_written_number_can_be_read(n);
    law_number_is_read_as_it_is_written(n);
    assert(crate::text::is_digit(text[0]));
    assert(crate::text::is_digit(text[text.len() - 1]));
    assert(minus[0] == '-');
    assert(minus.last() == text.last());
    law_trimming_takes_what_is_round_the_text(before, text, after);
    law_trimming_takes_what_is_round_the_text(before, minus, after);
    vstd::utf8::encode_utf8_decode_utf8(before + text + after);
    vstd::utf8::encode_utf8_decode_utf8(before + minus + after);
    vstd::utf8::encode_utf8_valid_utf8(before + text + after);
    vstd::utf8::encode_utf8_valid_utf8(before + minus + after);
}

// ---- names ----

/// A name of small ASCII letters and digits is compared as it is.
pub proof fn law_plain_name_is_compared_as_it_is(name: Seq<char>)
    requires
        forall|i: int|
            0 <= i < name.len() ==> '0' <= #[trigger] name[i] <= '9' || 'a' <= name[i] <= 'z',
    ensures
        crate::text::key_of(name) == name,
    decreases name.len(),
{
    let keep = |c: char| crate::text::is_ascii_alnum(c);
    let lower = |c: char| crate::text::ascii_lower(c);
    reveal(Seq::filter);
    if name.len() > 0 {
        let head = name.drop_last();
        assert forall|i: int| 0 <= i < head.len() implies '0' <= #[trigger] head[i] <= '9' || 'a'
            <= head[i] <= 'z' by {
            assert(head[i] == name[i]);
        }
        law_plain_name_is_compared_as_it_is(head);
        let c = name[name.len() - 1];
        assert(name.filter(keep) == head.filter(keep).push(c));
        assert(head.filter(keep).push(c).map_values(lower) =~= head.filter(keep).map_values(
            lower,
        ).push(c));
        assert(head.push(c) =~= name);
    } else {
        assert(crate::text::key_of(name) =~= name);
    }
}

/// A capital is compared as the small letter.
pub proof fn law_capital_is_compared_as_small_letter(c: char)
    requires
        'A' <= c <= 'Z',
    ensures
        crate::text::ascii_lower(c) as int - 'a' as int == c as int - 'A' as int,
        'a' <= crate::text::ascii_lower(c) <= 'z',
{
}

/// A character takes two columns where it is twice as wide as others, none where it has
/// no width, and one otherwise.
pub proof fn law_characters_take_none_one_or_two_columns(c: char)
    ensures
        crate::width::unicode_width_of(c) == Some(2usize) <==> crate::width::columns_of(c) == 2,
        crate::width::unicode_width_of(c) is None || crate::width::unicode_width_of(c) == Some(
            0usize,
        ) <==> crate::width::columns_of(c) == 0,
        0 <= crate::width::columns_of(c) <= 2,
{
}

/// Base64 may leave its padding out: with it or without, it is read; anything else is
/// not.
pub proof fn law_padding_may_be_left_out(data: Seq<u8>)
    ensures
        crate::codec::base64_padded(data) is Some ==> crate::codec::base64_either(data)
            == crate::codec::base64_padded(data),
        crate::codec::base64_padded(data) is None ==> crate::codec::base64_either(data)
            == crate::codec::base64_bare(data),
{
}

} // verus!
