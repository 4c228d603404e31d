//! Text primitives: whitespace trimming, ASCII case folding, searching, replacing and
//! decimal rendering, each over the sequence of characters that a string holds.

use vstd::prelude::*;

verus! {

/// The text that an optional string holds.
pub open spec fn text_of(value: Option<String>) -> Option<Seq<char>> {
    match value {
        Some(text) => Some(text@),
        None => None,
    }
}

/// The text that an optional string slice holds.
pub open spec fn slice_of(value: Option<&str>) -> Option<Seq<char>> {
    match value {
        Some(text) => Some(text@),
        None => None,
    }
}

/// The texts that a list of strings holds.
pub open spec fn texts_of(values: Seq<String>) -> Seq<Seq<char>> {
    values.map_values(|value: String| value@)
}

/// What `str::to_lowercase` returns for a text.
pub uninterp spec fn lowercase(text: Seq<char>) -> Seq<char>;

/// `str::to_lowercase`: the result depends on the text alone, and on text made of ASCII
/// characters only it maps `A`..`Z` to `a`..`z` and keeps every other character. No ASCII
/// capital letter is left in the result.
pub assume_specification[ str::to_lowercase ](s: &str) -> (r: String)
    ensures
        r@ == lowercase(s@),
        is_ascii_text(s@) ==> r@ == ascii_lowercase(s@),
        has_no_ascii_capital(r@),
;

pub open spec fn has_no_ascii_capital(text: Seq<char>) -> bool {
    forall|i: int| 0 <= i < text.len() ==> !('A' <= #[trigger] text[i] && text[i] <= 'Z')
}

/// The text in lower case.
pub open spec fn lowered(text: Seq<char>) -> Seq<char> {
    if is_ascii_text(text) {
        ascii_lowercase(text)
    } else {
        lowercase(text)
    }
}

/// Lower-cases a text.
pub fn to_lower(text: &str) -> (lower: String)
    ensures
        lower@ == lowered(text@),
        has_no_ascii_capital(lower@),
{
    text.to_lowercase()
}

/// Whether `char::is_alphanumeric` accepts a character.
pub uninterp spec fn alphanumeric(c: char) -> bool;

/// `char::is_alphanumeric`: the answer depends on the character alone; of the ASCII characters it
/// is yes for the letters and the digits.
pub assume_specification[ char::is_alphanumeric ](c: char) -> (r: bool)
    ensures
        r == alphanumeric(c),
        c as u32 <= 127 ==> r == is_ascii_alphanumeric(c),
;

/// A letter or a digit.
pub open spec fn is_alphanumeric(c: char) -> bool {
    if c as u32 <= 127 {
        is_ascii_alphanumeric(c)
    } else {
        alphanumeric(c)
    }
}

/// `String::push`: appends one character.
pub assume_specification[ String::push ](s: &mut String, c: char)
    ensures
        final(s)@ == old(s)@.push(c),
;

/// `String::push_str`: appends a slice.
pub assume_specification[ String::push_str ](s: &mut String, t: &str)
    ensures
        final(s)@ == old(s)@ + t@,
;

pub open spec fn is_ascii_text(text: Seq<char>) -> bool {
    forall|i: int| 0 <= i < text.len() ==> (#[trigger] text[i]) as u32 <= 0x7f
}

pub open spec fn ascii_lower(c: char) -> char {
    if 'A' <= c && c <= 'Z' {
        ((c as u32 + 32) as u32) as char
    } else {
        c
    }
}

pub open spec fn ascii_lowercase(text: Seq<char>) -> Seq<char> {
    text.map_values(|c: char| ascii_lower(c))
}

/// Equality up to the case of ASCII letters.
pub open spec fn same_ignoring_ascii_case(a: Seq<char>, b: Seq<char>) -> bool {
    ascii_lowercase(a) == ascii_lowercase(b)
}

/// The Unicode `White_Space` property.
pub open spec fn is_white_space(c: char) -> bool {
    ||| 0x09 <= c as u32 <= 0x0d
    ||| c as u32 == 0x20
    ||| c as u32 == 0x85
    ||| c as u32 == 0xa0
    ||| c as u32 == 0x1680
    ||| 0x2000 <= c as u32 <= 0x200a
    ||| c as u32 == 0x2028
    ||| c as u32 == 0x2029
    ||| c as u32 == 0x202f
    ||| c as u32 == 0x205f
    ||| c as u32 == 0x3000
}

/// The text without its leading white space.
pub open spec fn trim_start(text: Seq<char>) -> Seq<char>
    decreases text.len(),
{
    if text.len() > 0 && is_white_space(text.first()) {
        trim_start(text.drop_first())
    } else {
        text
    }
}

/// The text without its trailing white space.
pub open spec fn trim_end(text: Seq<char>) -> Seq<char>
    decreases text.len(),
{
    if text.len() > 0 && is_white_space(text.last()) {
        trim_end(text.drop_last())
    } else {
        text
    }
}

/// The text without white space at either end.
pub open spec fn trimmed(text: Seq<char>) -> Seq<char> {
    trim_end(trim_start(text))
}

/// The first `count` characters, or the whole text when it is shorter.
pub open spec fn prefix(text: Seq<char>, count: int) -> Seq<char> {
    if text.len() <= count {
        text
    } else {
        text.take(count)
    }
}

/// Whether `needle` stands in `text` at character position `at`.
pub open spec fn stands_at(text: Seq<char>, needle: Seq<char>, at: int) -> bool {
    0 <= at && at + needle.len() <= text.len() && text.subrange(at, at + needle.len()) == needle
}

/// Whether `needle` occurs in `text`.
pub open spec fn contains_text(text: Seq<char>, needle: Seq<char>) -> bool {
    exists|at: int| #[trigger] stands_at(text, needle, at)
}

/// Every occurrence of a non-empty `from`, searched from the left without overlap,
/// replaced by `to`.
pub open spec fn replaced(text: Seq<char>, from: Seq<char>, to: Seq<char>) -> Seq<char>
    recommends
        from.len() > 0,
    decreases text.len(),
{
    if text.len() == 0 || from.len() == 0 {
        text
    } else if stands_at(text, from, 0) {
        to + replaced(text.skip(from.len() as int), from, to)
    } else {
        seq![text.first()] + replaced(text.drop_first(), from, to)
    }
}

/// The decimal digits of a number, most significant first.
pub open spec fn decimal(value: nat) -> Seq<char>
    decreases value,
{
    if value < 10 {
        seq![digit_char(value)]
    } else {
        decimal(value / 10).push(digit_char(value % 10))
    }
}

pub open spec fn digit_char(digit: nat) -> char {
    ((48 + digit) as u32) as char
}

/// The number of bytes that the text takes in UTF-8.
pub open spec fn utf8_len(text: Seq<char>) -> nat {
    vstd::utf8::encode_utf8(text).len()
}

/// What a row of digits stands for.
pub open spec fn digits_value(digits: Seq<char>) -> nat
    decreases digits.len(),
{
    if digits.len() == 0 {
        0
    } else {
        digits_value(digits.drop_last()) * 10 + (digits.last() as nat - '0' as nat) as nat
    }
}

/// The number that a text writes out in digits, where it does and the number is not too large.
pub open spec fn written_number(text: Seq<char>) -> Option<i64> {
    if text.len() > 0 && (forall|i: int| 0 <= i < text.len() ==> is_ascii_digit(#[trigger] text[i]))
        && digits_value(text) <= i64::MAX {
        Some(digits_value(text) as i64)
    } else {
        None
    }
}

pub open spec fn is_ascii_digit(c: char) -> bool {
    '0' <= c && c <= '9'
}

pub open spec fn is_ascii_hexdigit(c: char) -> bool {
    is_ascii_digit(c) || ('a' <= c && c <= 'f') || ('A' <= c && c <= 'F')
}

pub open spec fn is_ascii_alphanumeric(c: char) -> bool {
    is_ascii_digit(c) || ('a' <= c && c <= 'z') || ('A' <= c && c <= 'Z')
}

pub fn white_space(c: char) -> (answer: bool)
    ensures
        answer == is_white_space(c),
{
    let code: u32 = c as u32;
    (0x09 <= code && code <= 0x0d) || code == 0x20 || code == 0x85 || code == 0xa0 || code == 0x1680
        || (0x2000 <= code && code <= 0x200a) || code == 0x2028 || code == 0x2029 || code == 0x202f
        || code == 0x205f || code == 0x3000
}

pub fn ascii_hexdigit(c: char) -> (answer: bool)
    ensures
        answer == is_ascii_hexdigit(c),
{
    ('0' <= c && c <= '9') || ('a' <= c && c <= 'f') || ('A' <= c && c <= 'F')
}

pub fn ascii_alphanumeric(c: char) -> (answer: bool)
    ensures
        answer == is_ascii_alphanumeric(c),
{
    ('0' <= c && c <= '9') || ('a' <= c && c <= 'z') || ('A' <= c && c <= 'Z')
}

pub fn ascii_lower_char(c: char) -> (lowered: char)
    ensures
        lowered == ascii_lower(c),
{
    if 'A' <= c && c <= 'Z' {
        let code: u8 = c as u8 + 32;
        assert(code as u32 == c as u32 + 32);
        code as char
    } else {
        c
    }
}

/// The characters of a string.
pub fn chars_of(text: &str) -> (chars: Vec<char>)
    ensures
        chars@ == text@,
{
    let mut chars: Vec<char> = Vec::new();
    for c in iter: text.chars()
        invariant
            iter.seq() == text@,
            chars@ == text@.take(iter.index()),
    {
        chars.push(c);
    }
    chars
}

/// The string made of the characters from `from` up to `to`.
pub fn string_between(chars: &Vec<char>, from: usize, to: usize) -> (text: String)
    requires
        from <= to <= chars@.len(),
    ensures
        text@ == chars@.subrange(from as int, to as int),
{
    let mut text = String::new();
    let mut i: usize = from;
    while i < to
        invariant
            from <= i <= to <= chars@.len(),
            text@ == chars@.subrange(from as int, i as int),
        decreases to - i,
    {
        text.push(chars[i]);
        i += 1;
    }
    text
}

/// The number of bytes that a string takes.
pub fn byte_len(text: &str) -> (bytes: usize)
    ensures
        bytes == utf8_len(text@),
{
    text.as_bytes().len()
}

/// The number of characters in a string.
pub fn char_len(text: &str) -> (count: usize)
    ensures
        count == text@.len(),
{
    text.unicode_len()
}

pub fn same_text(a: &str, b: &str) -> (same: bool)
    ensures
        same == (a@ == b@),
{
    a.to_owned() == b.to_owned()
}

pub fn equals_ignoring_ascii_case(a: &str, b: &str) -> (same: bool)
    ensures
        same == same_ignoring_ascii_case(a@, b@),
{
    let x = chars_of(a);
    let y = chars_of(b);
    if x.len() != y.len() {
        proof {
            assert(ascii_lowercase(a@).len() != ascii_lowercase(b@).len());
        }
        return false;
    }
    let mut i: usize = 0;
    while i < x.len()
        invariant
            i <= x@.len(),
            x@.len() == y@.len(),
            x@ == a@,
            y@ == b@,
            forall|k: int| 0 <= k < i ==> ascii_lower(x@[k]) == ascii_lower(y@[k]),
        decreases x@.len() - i,
    {
        if ascii_lower_char(x[i]) != ascii_lower_char(y[i]) {
            proof {
                assert(ascii_lowercase(a@)[i as int] != ascii_lowercase(b@)[i as int]);
            }
            return false;
        }
        i += 1;
    }
    proof {
        assert(ascii_lowercase(a@) =~= ascii_lowercase(b@));
    }
    true
}

proof fn lemma_trim_start_skips(text: Seq<char>, count: int)
    requires
        0 <= count <= text.len(),
        forall|i: int| 0 <= i < count ==> is_white_space(#[trigger] text[i]),
        count < text.len() ==> !is_white_space(text[count]),
    ensures
        trim_start(text) == text.skip(count),
    decreases count,
{
    if count > 0 {
        assert(is_white_space(text[0]));
        let rest = text.drop_first();
        assert forall|i: int| 0 <= i < count - 1 implies is_white_space(#[trigger] rest[i]) by {
            assert(rest[i] == text[i + 1]);
        }
        lemma_trim_start_skips(rest, count - 1);
        assert(rest.skip(count - 1) =~= text.skip(count));
    } else {
        assert(text.skip(0) =~= text);
    }
}

proof fn lemma_trim_end_takes(text: Seq<char>, keep: int)
    requires
        0 <= keep <= text.len(),
        forall|i: int| keep <= i < text.len() ==> is_white_space(#[trigger] text[i]),
        keep > 0 ==> !is_white_space(text[keep - 1]),
    ensures
        trim_end(text) == text.take(keep),
    decreases text.len() - keep,
{
    if keep < text.len() {
        assert(is_white_space(text[text.len() - 1]));
        let rest = text.drop_last();
        assert forall|i: int| keep <= i < rest.len() implies is_white_space(#[trigger] rest[i]) by {
            assert(rest[i] == text[i]);
        }
        lemma_trim_end_takes(rest, keep);
        assert(rest.take(keep) =~= text.take(keep));
    } else {
        assert(text.take(keep) =~= text);
    }
}

/// No white space at either end.
pub open spec fn is_trimmed(text: Seq<char>) -> bool {
    text.len() > 0 ==> !is_white_space(text.first()) && !is_white_space(text.last())
}

proof fn lemma_trim_start_is_suffix(text: Seq<char>)
    ensures
        exists|count: int|
            0 <= count <= text.len() && trim_start(text) == #[trigger] text.skip(count),
        trim_start(text).len() > 0 ==> !is_white_space(trim_start(text).first()),
    decreases text.len(),
{
    if text.len() > 0 && is_white_space(text.first()) {
        let rest = text.drop_first();
        lemma_trim_start_is_suffix(rest);
        let count = choose|count: int|
            0 <= count <= rest.len() && trim_start(rest) == #[trigger] rest.skip(count);
        assert(rest.skip(count) =~= text.skip(count + 1));
    } else {
        assert(text.skip(0) =~= text);
    }
}

proof fn lemma_trim_end_is_prefix(text: Seq<char>)
    ensures
        exists|count: int|
            0 <= count <= text.len() && trim_end(text) == #[trigger] text.take(count),
        trim_end(text).len() > 0 ==> !is_white_space(trim_end(text).last()),
    decreases text.len(),
{
    if text.len() > 0 && is_white_space(text.last()) {
        let rest = text.drop_last();
        lemma_trim_end_is_prefix(rest);
        let count = choose|count: int|
            0 <= count <= rest.len() && trim_end(rest) == #[trigger] rest.take(count);
        assert(rest.take(count) =~= text.take(count));
    } else {
        assert(text.take(text.len() as int) =~= text);
    }
}

/// Trimming leaves a stretch of the text that has no white space at either end.
pub proof fn lemma_trimmed(text: Seq<char>)
    ensures
        is_trimmed(trimmed(text)),
        exists|from: int, to: int|
            0 <= from <= to <= text.len() && trimmed(text) == #[trigger] text.subrange(from, to),
{
    lemma_trim_start_is_suffix(text);
    let start = trim_start(text);
    lemma_trim_end_is_prefix(start);
    let from = choose|count: int|
        0 <= count <= text.len() && trim_start(text) == #[trigger] text.skip(count);
    let keep = choose|count: int|
        0 <= count <= start.len() && trim_end(start) == #[trigger] start.take(count);
    assert(start.take(keep) =~= text.subrange(from, from + keep));
    if keep > 0 {
        assert(trimmed(text).first() == start.first());
    }
}

/// A text without white space at its ends is left alone by trimming.
pub proof fn lemma_trimmed_is_stable(text: Seq<char>)
    requires
        is_trimmed(text),
    ensures
        trimmed(text) == text,
{
}

/// Removes white space from both ends.
pub fn trim(text: &str) -> (inner: String)
    ensures
        inner@ == trimmed(text@),
{
    let chars = chars_of(text);
    let mut start: usize = 0;
    while start < chars.len() && white_space(chars[start])
        invariant
            start <= chars@.len(),
            forall|i: int| 0 <= i < start ==> is_white_space(#[trigger] chars@[i]),
        ensures
            start < chars@.len() ==> !is_white_space(chars@[start as int]),
        decreases chars@.len() - start,
    {
        start += 1;
    }
    let mut end: usize = chars.len();
    while start < end && white_space(chars[end - 1])
        invariant
            start <= end <= chars@.len(),
            forall|i: int| end <= i < chars@.len() ==> is_white_space(#[trigger] chars@[i]),
        ensures
            start < end ==> !is_white_space(chars@[end - 1]),
        decreases end,
    {
        end -= 1;
    }
    proof {
        lemma_trim_start_skips(chars@, start as int);
        let rest = chars@.skip(start as int);
        assert forall|i: int| end - start <= i < rest.len() implies is_white_space(
            #[trigger] rest[i],
        ) by {
            assert(rest[i] == chars@[i + start]);
        }
        lemma_trim_end_takes(rest, end - start);
        assert(rest.take(end - start) =~= chars@.subrange(start as int, end as int));
    }
    string_between(&chars, start, end)
}

/// The first `count` characters of a string.
pub fn take_chars(text: &str, count: usize) -> (head: String)
    ensures
        head@ == prefix(text@, count as int),
{
    let chars = chars_of(text);
    if chars.len() <= count {
        proof {
            assert(chars@.subrange(0, chars@.len() as int) =~= chars@);
        }
        string_between(&chars, 0, chars.len())
    } else {
        proof {
            assert(chars@.subrange(0, count as int) =~= chars@.take(count as int));
        }
        string_between(&chars, 0, count)
    }
}

fn chars_stand_at(text: &Vec<char>, needle: &Vec<char>, at: usize) -> (answer: bool)
    requires
        at <= text@.len(),
    ensures
        answer == stands_at(text@, needle@, at as int),
{
    if needle.len() > text.len() - at {
        return false;
    }
    let mut i: usize = 0;
    while i < needle.len()
        invariant
            i <= needle@.len(),
            at + needle@.len() <= text@.len() <= usize::MAX,
            forall|k: int| 0 <= k < i ==> text@[at + k] == needle@[k],
        decreases needle@.len() - i,
    {
        if text[at + i] != needle[i] {
            proof {
                assert(text@.subrange(at as int, at + needle@.len())[i as int] != needle@[i as int]);
            }
            return false;
        }
        i += 1;
    }
    proof {
        assert(text@.subrange(at as int, at + needle@.len()) =~= needle@);
    }
    true
}

/// Whether `needle` occurs in `text`.
pub fn has_text(text: &str, needle: &str) -> (answer: bool)
    ensures
        answer == contains_text(text@, needle@),
{
    let hay = chars_of(text);
    let pin = chars_of(needle);
    let mut at: usize = 0;
    while at < hay.len()
        invariant
            at <= hay@.len(),
            hay@ == text@,
            pin@ == needle@,
            forall|k: int| 0 <= k < at ==> !#[trigger] stands_at(text@, needle@, k),
        decreases hay@.len() - at,
    {
        if chars_stand_at(&hay, &pin, at) {
            return true;
        }
        at += 1;
    }
    chars_stand_at(&hay, &pin, at)
}

/// Whether `text` begins with `head`.
pub fn starts_with(text: &str, head: &str) -> (answer: bool)
    ensures
        answer == stands_at(text@, head@, 0),
{
    chars_stand_at(&chars_of(text), &chars_of(head), 0)
}

/// Replaces every occurrence of `from` by `to`.
pub fn replace_text(text: &str, from: &str, to: &str) -> (result: String)
    requires
        from@.len() > 0,
    ensures
        result@ == replaced(text@, from@, to@),
{
    let hay = chars_of(text);
    let pin = chars_of(from);
    let mut result = String::new();
    let mut at: usize = 0;
    proof {
        assert(hay@.skip(0) =~= hay@);
    }
    while at < hay.len()
        invariant
            at <= hay@.len(),
            pin@ == from@,
            from@.len() > 0,
            hay@ == text@,
            replaced(text@, from@, to@) == result@ + replaced(hay@.skip(at as int), from@, to@),
        decreases hay@.len() - at,
    {
        let ghost rest = hay@.skip(at as int);
        if chars_stand_at(&hay, &pin, at) {
            proof {
                assert(rest.subrange(0, pin@.len() as int) =~= hay@.subrange(
                    at as int,
                    at + pin@.len(),
                ));
                assert(stands_at(rest, from@, 0));
                assert(rest.skip(pin@.len() as int) =~= hay@.skip(at + pin@.len()));
            }
            let ghost before = result@;
            result.push_str(to);
            at += pin.len();
            proof {
                assert(before + (to@ + replaced(hay@.skip(at as int), from@, to@)) =~= result@
                    + replaced(hay@.skip(at as int), from@, to@));
            }
        } else {
            proof {
                if stands_at(rest, from@, 0) {
                    assert(rest.subrange(0, pin@.len() as int) =~= hay@.subrange(
                        at as int,
                        at + pin@.len(),
                    ));
                    assert(stands_at(hay@, pin@, at as int));
                }
                assert(rest.drop_first() =~= hay@.skip(at + 1));
            }
            let ghost before = result@;
            result.push(hay[at]);
            at += 1;
            proof {
                assert(before + (seq![rest.first()] + replaced(hay@.skip(at as int), from@, to@))
                    =~= result@ + replaced(hay@.skip(at as int), from@, to@));
            }
        }
    }
    proof {
        assert(hay@.skip(at as int) =~= Seq::<char>::empty());
        assert(result@ + Seq::<char>::empty() =~= result@);
    }
    result
}

/// The decimal digits of a number.
pub fn decimal_text(value: u64) -> (digits: String)
    ensures
        digits@ == decimal(value as nat),
    decreases value,
{
    if value < 10 {
        let mut digits = String::new();
        let code: u8 = 48 + value as u8;
        digits.push(code as char);
        proof {
            assert(digits@ =~= decimal(value as nat));
        }
        digits
    } else {
        let mut digits = decimal_text(value / 10);
        let code: u8 = 48 + (value % 10) as u8;
        digits.push(code as char);
        digits
    }
}

/// The value of a row of digits is at least that of its beginning.
proof fn lemma_digits_value_grows(digits: Seq<char>, count: int)
    requires
        0 <= count <= digits.len(),
    ensures
        digits_value(digits.take(count)) <= digits_value(digits),
    decreases digits.len(),
{
    if count == digits.len() {
        assert(digits.take(count) =~= digits);
    } else {
        assert(digits.drop_last().take(count) =~= digits.take(count));
        lemma_digits_value_grows(digits.drop_last(), count);
    }
}

/// The number that a text writes out in digits.
pub fn read_number(text: &str) -> (number: Option<i64>)
    ensures
        number == written_number(text@),
{
    let chars = chars_of(text);
    let mut value: i64 = 0;
    let mut i: usize = 0;
    while i < chars.len()
        invariant
            i <= chars@.len(),
            chars@ == text@,
            value == digits_value(chars@.take(i as int)),
            forall|k: int| 0 <= k < i ==> is_ascii_digit(#[trigger] chars@[k]),
        decreases chars@.len() - i,
    {
        let c = chars[i];
        if c < '0' || c > '9' {
            assert(!is_ascii_digit(text@[i as int]));
            return None;
        }
        let digit: i64 = (c as u32 - 48) as i64;
        proof {
            let next = chars@.take(i + 1);
            assert(next.drop_last() =~= chars@.take(i as int));
            assert(next.last() == c);
            assert(digits_value(next) == value * 10 + digit);
            lemma_digits_value_grows(chars@, i + 1);
        }
        let tens = match value.checked_mul(10) {
            Some(tens) => tens,
            None => return None,
        };
        value = match tens.checked_add(digit) {
            Some(sum) => sum,
            None => return None,
        };
        i += 1;
    }
    proof {
        assert(chars@.take(i as int) =~= chars@);
    }
    if chars.len() == 0 {
        None
    } else {
        Some(value)
    }
}

/// Before in the order of the code points, letter by letter; a text comes before its
/// continuations.
pub open spec fn lex_before(a: Seq<char>, b: Seq<char>) -> bool
    decreases a.len(),
{
    if b.len() == 0 {
        false
    } else if a.len() == 0 {
        true
    } else if a[0] != b[0] {
        a[0] < b[0]
    } else {
        lex_before(a.drop_first(), b.drop_first())
    }
}

pub proof fn lemma_lex_irreflexive(a: Seq<char>)
    ensures
        !lex_before(a, a),
    decreases a.len(),
{
    if a.len() > 0 {
        lemma_lex_irreflexive(a.drop_first());
    }
}

pub proof fn lemma_lex_transitive(a: Seq<char>, b: Seq<char>, c: Seq<char>)
    requires
        lex_before(a, b),
        lex_before(b, c),
    ensures
        lex_before(a, c),
    decreases a.len(),
{
    if a.len() > 0 && b.len() > 0 && c.len() > 0 && a[0] == b[0] && b[0] == c[0] {
        lemma_lex_transitive(a.drop_first(), b.drop_first(), c.drop_first());
    }
}

pub proof fn lemma_lex_total(a: Seq<char>, b: Seq<char>)
    ensures
        a == b || lex_before(a, b) || lex_before(b, a),
    decreases a.len(),
{
    if a.len() > 0 && b.len() > 0 && a[0] == b[0] {
        lemma_lex_total(a.drop_first(), b.drop_first());
        if a.drop_first() == b.drop_first() {
            assert(a =~= seq![a[0]] + a.drop_first());
            assert(b =~= seq![b[0]] + b.drop_first());
        }
    } else if a.len() == 0 && b.len() == 0 {
        assert(a =~= b);
    }
}

/// Whether a text comes before another one in the order of the code points.
pub fn comes_before(a: &str, b: &str) -> (answer: bool)
    ensures
        answer == lex_before(a@, b@),
{
    let x = chars_of(a);
    let y = chars_of(b);
    let mut i: usize = 0;
    proof {
        assert(x@.skip(0) =~= x@);
        assert(y@.skip(0) =~= y@);
    }
    while i < x.len() && i < y.len()
        invariant
            i <= x@.len(),
            i <= y@.len(),
            x@ == a@,
            y@ == b@,
            lex_before(a@, b@) == lex_before(x@.skip(i as int), y@.skip(i as int)),
        decreases x@.len() - i,
    {
        if x[i] != y[i] {
            return x[i] < y[i];
        }
        proof {
            assert(x@.skip(i as int).drop_first() =~= x@.skip(i + 1));
            assert(y@.skip(i as int).drop_first() =~= y@.skip(i + 1));
        }
        i += 1;
    }
    i < y.len()
}

/// A text with its ASCII letters in lower case.
pub fn to_ascii_lower(text: &str) -> (lower: String)
    ensures
        lower@ == ascii_lowercase(text@),
{
    let mut lower = String::new();
    proof {
        assert(lower@ =~= ascii_lowercase(text@).take(0));
    }
    for c in iter: text.chars()
        invariant
            iter.seq() == text@,
            lower@ == ascii_lowercase(text@).take(iter.index()),
    {
        lower.push(ascii_lower_char(c));
        proof {
            assert(lower@ =~= ascii_lowercase(text@).take(iter.index() + 1));
        }
    }
    proof {
        assert(ascii_lowercase(text@).take(text@.len() as int) =~= ascii_lowercase(text@));
    }
    lower
}

/// The text before the first NUL character.
pub open spec fn before_nul(text: Seq<char>) -> Seq<char>
    decreases text.len(),
{
    if text.len() == 0 || text[0] == '\0' {
        Seq::empty()
    } else {
        seq![text[0]] + before_nul(text.drop_first())
    }
}

proof fn lemma_before_nul(text: Seq<char>, count: int)
    requires
        0 <= count <= text.len(),
        forall|i: int| 0 <= i < count ==> text[i] != '\0',
        count < text.len() ==> text[count] == '\0',
    ensures
        before_nul(text) == text.take(count),
    decreases count,
{
    if count > 0 {
        lemma_before_nul(text.drop_first(), count - 1);
        assert(seq![text[0]] + text.drop_first().take(count - 1) =~= text.take(count));
    } else {
        assert(text.take(0) =~= Seq::empty());
    }
}

pub fn until_nul(text: &str) -> (head: String)
    ensures
        head@ == before_nul(text@),
{
    let chars = chars_of(text);
    let mut count: usize = 0;
    while count < chars.len() && chars[count] != '\0'
        invariant
            count <= chars@.len(),
            forall|i: int| 0 <= i < count ==> chars@[i] != '\0',
        ensures
            count < chars@.len() ==> chars@[count as int] == '\0',
        decreases chars@.len() - count,
    {
        count += 1;
    }
    proof {
        lemma_before_nul(chars@, count as int);
        assert(chars@.take(count as int) =~= chars@.subrange(0, count as int));
    }
    string_between(&chars, 0, count)
}

/// The text ends with `tail`.
pub open spec fn ends_with_text(text: Seq<char>, tail: Seq<char>) -> bool {
    tail.len() <= text.len() && text.skip(text.len() - tail.len()) == tail
}

pub fn ends_with(text: &str, tail: &str) -> (answer: bool)
    ensures
        answer == ends_with_text(text@, tail@),
{
    let chars = chars_of(text);
    let length = char_len(tail);
    if length > chars.len() {
        return false;
    }
    let end = string_between(&chars, chars.len() - length, chars.len());
    proof {
        assert(end@ =~= text@.skip(text@.len() - tail@.len()));
    }
    same_text(end.as_str(), tail)
}

} // verus!
