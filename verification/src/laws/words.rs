//! Texts: trimming, searching, replacing, ordering and writing numbers.

use crate::text;
use vstd::prelude::*;

verus! {

/// The characters that count as white space are those of Unicode.
pub proof fn white_space_is_that_of_unicode(c: char)
    ensures
        text::is_white_space(c) <==> {
            ||| c == '\t' || c == '\n' || c as u32 == 0x0b || c as u32 == 0x0c || c == '\r'
            ||| c == ' '
            ||| c as u32 == 0x85 || c as u32 == 0xa0 || c as u32 == 0x1680
            ||| 0x2000 <= c as u32 <= 0x200a
            ||| c as u32 == 0x2028 || c as u32 == 0x2029 || c as u32 == 0x202f
            ||| c as u32 == 0x205f || c as u32 == 0x3000
        },
{
}

proof fn lemma_trim_start(text: Seq<char>) -> (from: int)
    ensures
        0 <= from <= text.len(),
        text::trim_start(text) == text.skip(from),
        forall|i: int| 0 <= i < from ==> text::is_white_space(#[trigger] text[i]),
        from < text.len() ==> !text::is_white_space(text[from]),
    decreases text.len(),
{
    if text.len() > 0 && text::is_white_space(text.first()) {
        let rest = text.drop_first();
        let from = lemma_trim_start(rest);
        assert(rest.skip(from) =~= text.skip(from + 1));
        assert forall|i: int| 0 <= i < from + 1 implies text::is_white_space(#[trigger] text[i]) by {
            if i > 0 {
                assert(text[i] == rest[i - 1]);
            }
        }
        from + 1
    } else {
        assert(text.skip(0) =~= text);
        0
    }
}

proof fn lemma_trim_end(text: Seq<char>) -> (to: int)
    ensures
        0 <= to <= text.len(),
        text::trim_end(text) == text.take(to),
        forall|i: int| to <= i < text.len() ==> text::is_white_space(#[trigger] text[i]),
        0 < to ==> !text::is_white_space(text[to - 1]),
    decreases text.len(),
{
    if text.len() > 0 && text::is_white_space(text.last()) {
        let rest = text.drop_last();
        let to = lemma_trim_end(rest);
        assert(rest.take(to) =~= text.take(to));
        assert forall|i: int| to <= i < text.len() implies text::is_white_space(
            #[trigger] text[i],
        ) by {
            if i < rest.len() {
                assert(text[i] == rest[i]);
            }
        }
        to
    } else {
        assert(text.take(text.len() as int) =~= text);
        text.len() as int
    }
}

/// Trimming takes white space from both ends and nothing else.
pub proof fn trimming_takes_only_white_space(text: Seq<char>) -> (ends: (int, int))
    ensures
        0 <= ends.0 <= ends.1 <= text.len(),
        text::trimmed(text) == text.subrange(ends.0, ends.1),
        forall|i: int|
            0 <= i < ends.0 || ends.1 <= i < text.len() ==> text::is_white_space(
                #[trigger] text[i],
            ),
        ends.0 < ends.1 ==> !text::is_white_space(text[ends.0]) && !text::is_white_space(
            text[ends.1 - 1],
        ),
{
    let from = lemma_trim_start(text);
    let rest = text.skip(from);
    let to = lemma_trim_end(rest);
    assert(rest.take(to) =~= text.subrange(from, from + to));
    assert forall|i: int| 0 <= i < from || from + to <= i < text.len() implies text::is_white_space(
        #[trigger] text[i],
    ) by {
        if from <= i {
            assert(text[i] == rest[i - from]);
        }
    }
    if to > 0 {
        assert(rest[to - 1] == text[from + to - 1]);
        assert(rest[0] == text[from]);
    }
    (from, from + to)
}

/// A text contains another one exactly if it is something, the other one, and something again.
pub proof fn containing_is_standing_between(head: Seq<char>, needle: Seq<char>, tail: Seq<char>)
    ensures
        text::contains_text(head + needle + tail, needle),
        text::ends_with_text(head + needle, needle),
        needle.len() > 0 ==> !text::contains_text(Seq::empty(), needle),
{
    let whole = head + needle + tail;
    assert(whole.subrange(head.len() as int, (head.len() + needle.len()) as int) =~= needle);
    assert(text::stands_at(whole, needle, head.len() as int));
    assert((head + needle).skip(head.len() as int) =~= needle);
}

/// What a text contains can be cut out of it.
pub proof fn contained_text_can_be_cut_out(whole: Seq<char>, needle: Seq<char>) -> (at: int)
    requires
        text::contains_text(whole, needle),
    ensures
        0 <= at,
        at + needle.len() <= whole.len(),
        whole == whole.take(at) + needle + whole.skip(at + needle.len()),
{
    let at = choose|at: int| #[trigger] text::stands_at(whole, needle, at);
    assert(whole =~= whole.take(at) + whole.subrange(at, at + needle.len()) + whole.skip(
        at + needle.len(),
    ));
    at
}

/// What a text ends with follows something.
pub proof fn an_end_follows_something(whole: Seq<char>, tail: Seq<char>)
    ensures
        text::ends_with_text(whole, tail) <==> exists|head: Seq<char>| whole == #[trigger] (head
            + tail),
{
    if text::ends_with_text(whole, tail) {
        let head = whole.take(whole.len() - tail.len());
        assert(whole =~= head + tail);
    }
    if exists|head: Seq<char>| whole == #[trigger] (head + tail) {
        let head = choose|head: Seq<char>| whole == #[trigger] (head + tail);
        assert(whole.skip(whole.len() - tail.len()) =~= tail);
    }
}

/// The first occurrence is replaced, and then what follows it is dealt with.
pub proof fn replacing_goes_from_left_to_right(
    head: Seq<char>,
    from: Seq<char>,
    rest: Seq<char>,
    to: Seq<char>,
)
    requires
        from.len() > 0,
        forall|at: int| 0 <= at < head.len() ==> !text::stands_at(head + from + rest, from, at),
    ensures
        text::replaced(head + from + rest, from, to) == head + to + text::replaced(rest, from, to),
    decreases head.len(),
{
    let whole = head + from + rest;
    if head.len() == 0 {
        assert(whole.subrange(0, from.len() as int) =~= from);
        assert(whole.skip(from.len() as int) =~= rest);
        assert(head + to + text::replaced(rest, from, to) =~= to + text::replaced(rest, from, to));
    } else {
        assert(!text::stands_at(whole, from, 0));
        let shorter = head.drop_first();
        assert(whole.drop_first() =~= shorter + from + rest);
        assert forall|at: int| 0 <= at < shorter.len() implies !text::stands_at(
            shorter + from + rest,
            from,
            at,
        ) by {
            if text::stands_at(shorter + from + rest, from, at) {
                assert((shorter + from + rest).subrange(at, at + from.len()) =~= whole.subrange(
                    at + 1,
                    at + 1 + from.len(),
                ));
                assert(text::stands_at(whole, from, at + 1));
            }
        }
        replacing_goes_from_left_to_right(shorter, from, rest, to);
        assert(seq![whole.first()] + (shorter + to + text::replaced(rest, from, to)) =~= head + to
            + text::replaced(rest, from, to));
    }
}

/// Where there is nothing to replace, nothing changes.
pub proof fn nothing_is_replaced_by_chance(whole: Seq<char>, from: Seq<char>, to: Seq<char>)
    requires
        from.len() > 0,
        !text::contains_text(whole, from),
    ensures
        text::replaced(whole, from, to) == whole,
    decreases whole.len(),
{
    if whole.len() > 0 {
        assert(!text::stands_at(whole, from, 0));
        let rest = whole.drop_first();
        if text::contains_text(rest, from) {
            let at = choose|at: int| #[trigger] text::stands_at(rest, from, at);
            assert(rest.subrange(at, at + from.len()) =~= whole.subrange(
                at + 1,
                at + 1 + from.len(),
            ));
            assert(text::stands_at(whole, from, at + 1));
        }
        nothing_is_replaced_by_chance(rest, from, to);
        assert(seq![whole.first()] + rest =~= whole);
    }
}

/// The characters before the first NUL.
pub proof fn a_nul_ends_a_text(head: Seq<char>, tail: Seq<char>)
    requires
        !head.contains('\0'),
    ensures
        text::before_nul(head) == head,
        text::before_nul(head.push('\0') + tail) == head,
    decreases head.len(),
{
    if head.len() > 0 {
        let rest = head.drop_first();
        assert(head[0] != '\0');
        assert forall|i: int| 0 <= i < rest.len() implies rest[i] != '\0' by {
            assert(rest[i] == head[i + 1]);
        }
        a_nul_ends_a_text(rest, tail);
        assert(seq![head[0]] + rest =~= head);
        assert((head.push('\0') + tail).drop_first() =~= rest.push('\0') + tail);
    } else {
        assert((head.push('\0') + tail)[0] == '\0');
    }
}

/// In the order of texts the first difference decides, and a text comes before its
/// continuations.
pub proof fn the_first_difference_decides(head: Seq<char>, a: Seq<char>, b: Seq<char>)
    requires
        a.len() == 0 || b.len() == 0 || a[0] != b[0],
    ensures
        text::lex_before(head + a, head + b) <==> b.len() > 0 && (a.len() == 0 || a[0] < b[0]),
    decreases head.len(),
{
    if head.len() > 0 {
        assert((head + a).drop_first() =~= head.drop_first() + a);
        assert((head + b).drop_first() =~= head.drop_first() + b);
        the_first_difference_decides(head.drop_first(), a, b);
    } else {
        assert(head + a =~= a);
        assert(head + b =~= b);
    }
}

/// ASCII capital letters become small, everything else stays.
pub proof fn ascii_letters_become_small(value: Seq<char>, i: int)
    requires
        0 <= i < value.len(),
    ensures
        text::ascii_lowercase(value).len() == value.len(),
        !('A' <= value[i] && value[i] <= 'Z') ==> text::ascii_lowercase(value)[i] == value[i],
        'A' <= value[i] && value[i] <= 'Z' ==> text::ascii_lowercase(value)[i] as u32
            == value[i] as u32 + 32,
        text::is_ascii_text(value) ==> text::lowered(value) == text::ascii_lowercase(value),
        !(forall|k: int| 0 <= k < value.len() ==> (#[trigger] value[k]) as u32 <= 127)
            ==> text::lowered(value) == text::lowercase(value),
{
}

/// Cutting a text keeps its beginning.
pub proof fn cutting_keeps_the_beginning(head: Seq<char>, tail: Seq<char>)
    ensures
        text::prefix(head + tail, head.len() as int) == head,
        text::prefix(head, (head.len() + tail.len()) as int) == head,
{
    assert((head + tail).take(head.len() as int) =~= head);
    if tail.len() == 0 {
        assert(head + tail =~= head);
    }
}

/// A number written out in digits is read back, and is written without needless zeros.
pub proof fn written_numbers_are_read_back(value: nat)
    ensures
        text::digits_value(text::decimal(value)) == value,
        value <= i64::MAX ==> text::written_number(text::decimal(value)) == Some(value as i64),
        text::decimal(value).len() > 0,
        value > 0 ==> text::decimal(value)[0] != '0',
        forall|i: int|
            0 <= i < text::decimal(value).len() ==> '0' <= #[trigger] text::decimal(value)[i]
                && text::decimal(value)[i] <= '9',
    decreases value,
{
    let digits = text::decimal(value);
    if value < 10 {
        assert(digits.drop_last() =~= Seq::empty());
        assert(text::digits_value(digits.drop_last()) == 0);
    } else {
        written_numbers_are_read_back(value / 10);
        assert(digits.drop_last() =~= text::decimal(value / 10));
        assert(digits[0] == text::decimal(value / 10)[0]);
        assert forall|i: int| 0 <= i < digits.len() implies '0' <= #[trigger] digits[i]
            && digits[i] <= '9' by {
            if i < digits.len() - 1 {
                assert(digits[i] == text::decimal(value / 10)[i]);
            }
        }
    }
}

/// What is no row of digits writes out no number.
pub proof fn only_digits_write_numbers(value: Seq<char>, i: int)
    requires
        value.len() == 0 || (0 <= i < value.len() && !('0' <= value[i] && value[i] <= '9')),
    ensures
        text::written_number(value) is None,
{
    if value.len() > 0 {
        assert(!text::is_ascii_digit(value[i]));
    }
}

/// Hexadecimal digits, letters and digits.
pub proof fn letters_and_digits_are_those_of_ascii(c: char)
    ensures
        text::is_ascii_digit(c) <==> 48 <= c as u32 <= 57,
        text::is_ascii_hexdigit(c) <==> 48 <= c as u32 <= 57 || 65 <= c as u32 <= 70 || 97
            <= c as u32 <= 102,
        text::is_ascii_alphanumeric(c) <==> 48 <= c as u32 <= 57 || 65 <= c as u32 <= 90 || 97
            <= c as u32 <= 122,
        c as u32 <= 127 ==> (text::is_alphanumeric(c) <==> text::is_ascii_alphanumeric(c)),
        c as u32 > 127 ==> text::is_alphanumeric(c) == text::alphanumeric(c),
{
}

/// A byte is read back from its two digits.
pub proof fn bytes_are_read_back_from_their_digits(bytes: Seq<u8>, i: int)
    requires
        0 <= i < bytes.len(),
    ensures
        ({
            let digits = crate::hashing::hex_text(bytes);
            let value = |c: char|
                if c as u32 >= 97 {
                    c as int - 87
                } else {
                    c as int - 48
                };
            &&& digits.len() == 2 * bytes.len()
            &&& value(digits[2 * i]) * 16 + value(digits[2 * i + 1]) == bytes[i]
            &&& crate::hashing::is_lower_hex(digits[2 * i])
            &&& crate::hashing::is_lower_hex(digits[2 * i + 1])
            &&& 48 <= digits[2 * i] as u32 <= 57 || 97 <= digits[2 * i] as u32 <= 102
        }),
{
    let byte = bytes[i] as int;
    assert(0 <= byte / 16 < 16);
    assert(0 <= byte % 16 < 16);
    assert((2 * i) / 2 == i && (2 * i + 1) / 2 == i && (2 * i) % 2 == 0 && (2 * i + 1) % 2 == 1);
}

/// An identifier is written as 32 digits in groups of 8, 4, 4, 4 and 12, with hyphens between; the
/// first digit tells the highest four bits, the last the lowest.
pub proof fn identifiers_are_written_in_groups(id: u128)
    ensures
        ({
            let words = crate::identity::uuid_text(id);
            &&& words.len() == 36
            &&& words[8] == '-' && words[13] == '-' && words[18] == '-' && words[23] == '-'
            &&& words[35] == crate::hashing::hex_digit(id as int % 16)
            &&& words[34] == crate::hashing::hex_digit(id as int / 16 % 16)
            &&& words[22] == crate::identity::uuid_digit(id, 19)
            &&& words[24] == crate::identity::uuid_digit(id, 20)
            &&& forall|at: int, digit: int|
                0 <= at < 32 && digit == at + (if at < 8 {
                    0int
                } else if at < 12 {
                    1
                } else if at < 16 {
                    2
                } else if at < 20 {
                    3
                } else {
                    4
                }) ==> #[trigger] words[digit] == #[trigger] crate::identity::uuid_digit(id, at)
        }),
{
    reveal_with_fuel(vstd::arithmetic::power::pow, 3);
    assert(vstd::arithmetic::power::pow(16, 0) == 1);
    assert(vstd::arithmetic::power::pow(16, 1) == 16);
}

} // verus!
