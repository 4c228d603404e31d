//! Normal forms of clipboard text and of web domains.

use crate::{hashing, text};
use crate::hashing::{hex_encode, sha256};
use crate::text::{ascii_alphanumeric, chars_of, replace_text, string_between, to_lower, trim};
use vstd::prelude::*;

verus! {

/// Line ends unified to `\n`, no white space at either end.
pub open spec fn normalized_content(value: Seq<char>) -> Seq<char> {
    text::trimmed(unified_newlines(value))
}

pub open spec fn unified_newlines(value: Seq<char>) -> Seq<char> {
    text::replaced(text::replaced(value, seq!['\r', '\n'], seq!['\n']), seq!['\r'], seq!['\n'])
}

/// The hash under which a text is stored and matched.
pub open spec fn hash_of(text: Seq<char>) -> Seq<char> {
    hashing::hex_text(hashing::sha256_digest(vstd::utf8::encode_utf8(text)))
}

/// Without trailing dots.
pub open spec fn without_trailing_dots(text: Seq<char>) -> Seq<char>
    decreases text.len(),
{
    if text.len() > 0 && text.last() == '.' {
        without_trailing_dots(text.drop_last())
    } else {
        text
    }
}

pub open spec fn www_prefix() -> Seq<char> {
    seq!['w', 'w', 'w', '.']
}

/// Without one leading `www.`.
pub open spec fn without_www(text: Seq<char>) -> Seq<char> {
    if text::stands_at(text, www_prefix(), 0) {
        text.skip(4)
    } else {
        text
    }
}

/// Labels of ASCII letters, digits and hyphens joined by single dots; every label begins and
/// ends with a letter or digit; at most 253 characters in all.
pub open spec fn is_domain(text: Seq<char>) -> bool {
    &&& 0 < text.len() <= 253
    &&& text::is_ascii_alphanumeric(text.first())
    &&& text::is_ascii_alphanumeric(text.last())
    &&& forall|i: int|
        0 <= i < text.len() ==> (text::is_ascii_alphanumeric(#[trigger] text[i]) || text[i] == '-'
            || text[i] == '.')
    &&& forall|i: int|
        0 < i < text.len() - 1 && #[trigger] text[i] == '.' ==> text::is_ascii_alphanumeric(text[i - 1])
            && text::is_ascii_alphanumeric(text[i + 1])
}

/// What remains of a lower-cased host once a leading `www.` is dropped, if it is a domain.
pub open spec fn domain_of_lowered(lower: Seq<char>) -> Option<Seq<char>> {
    if is_domain(without_www(lower)) {
        Some(without_www(lower))
    } else {
        None
    }
}

/// The normal form of a domain, if the value is one.
pub open spec fn normalized_domain(value: Seq<char>) -> Option<Seq<char>> {
    domain_of_lowered(text::lowered(without_trailing_dots(text::trimmed(value))))
}

pub fn normalize_content(value: &str) -> (normalized: String)
    ensures
        normalized@ == normalized_content(value@),
{
    proof {
        reveal_strlit("\r\n");
        reveal_strlit("\n");
        reveal_strlit("\r");
        assert("\r\n"@ =~= seq!['\r', '\n']);
        assert("\n"@ =~= seq!['\n']);
        assert("\r"@ =~= seq!['\r']);
    }
    let pairs = replace_text(value, "\r\n", "\n");
    let unified = replace_text(pairs.as_str(), "\r", "\n");
    trim(unified.as_str())
}

pub fn content_hash(normalized: &str) -> (hash: String)
    ensures
        hash@ == hash_of(normalized@),
        hashing::is_hash_text(hash@),
{
    let nothing: Vec<u8> = Vec::new();
    let digest = sha256(nothing.as_slice(), normalized.as_bytes());
    proof {
        assert(nothing@ + vstd::utf8::encode_utf8(normalized@) =~= vstd::utf8::encode_utf8(normalized@));
        hashing::hex_of_digest_is_hash_text(digest@);
    }
    hex_encode(digest.as_slice())
}

proof fn lemma_replacing_carriage_returns(text: Seq<char>)
    ensures
        !text::replaced(text, seq!['\r'], seq!['\n']).contains('\r'),
    decreases text.len(),
{
    let from = seq!['\r'];
    let to = seq!['\n'];
    if text.len() > 0 {
        if text::stands_at(text, from, 0) {
            lemma_replacing_carriage_returns(text.skip(1));
            let rest = text::replaced(text.skip(1), from, to);
            assert forall|i: int| 0 <= i < (to + rest).len() implies (to + rest)[i] != '\r' by {
                if i > 0 {
                    assert((to + rest)[i] == rest[i - 1]);
                }
            }
        } else {
            lemma_replacing_carriage_returns(text.drop_first());
            let head = seq![text.first()];
            let rest = text::replaced(text.drop_first(), from, to);
            assert(text.subrange(0, 1) =~= head);
            assert forall|i: int| 0 <= i < (head + rest).len() implies (head + rest)[i] != '\r' by {
                if i > 0 {
                    assert((head + rest)[i] == rest[i - 1]);
                }
            }
        }
    }
}

proof fn lemma_nothing_to_replace(text: Seq<char>, from: Seq<char>, to: Seq<char>)
    requires
        from.len() > 0,
        from[0] == '\r',
        !text.contains('\r'),
    ensures
        text::replaced(text, from, to) == text,
    decreases text.len(),
{
    if text.len() > 0 {
        if text::stands_at(text, from, 0) {
            assert(text.subrange(0, from.len() as int)[0] == text[0]);
            assert(text.contains('\r'));
        }
        let rest = text.drop_first();
        assert forall|i: int| 0 <= i < rest.len() implies rest[i] != '\r' by {
            assert(rest[i] == text[i + 1]);
        }
        lemma_nothing_to_replace(rest, from, to);
        assert(seq![text.first()] + rest =~= text);
    }
}

/// A normalized text holds no carriage return, has no white space at either end, and is its
/// own normal form.
pub proof fn normalized_content_is_canonical(value: Seq<char>)
    ensures
        !normalized_content(value).contains('\r'),
        text::is_trimmed(normalized_content(value)),
        normalized_content(normalized_content(value)) == normalized_content(value),
{
    let unified = unified_newlines(value);
    let normal = normalized_content(value);
    lemma_replacing_carriage_returns(text::replaced(value, seq!['\r', '\n'], seq!['\n']));
    text::lemma_trimmed(unified);
    let (from, to) = choose|from: int, to: int|
        0 <= from <= to <= unified.len() && normal == #[trigger] unified.subrange(from, to);
    assert forall|i: int| 0 <= i < normal.len() implies normal[i] != '\r' by {
        assert(normal[i] == unified[from + i]);
    }
    lemma_nothing_to_replace(normal, seq!['\r', '\n'], seq!['\n']);
    lemma_nothing_to_replace(normal, seq!['\r'], seq!['\n']);
    text::lemma_trimmed_is_stable(normal);
}

proof fn lemma_without_trailing_dots_takes(text: Seq<char>, keep: int)
    requires
        0 <= keep <= text.len(),
        forall|i: int| keep <= i < text.len() ==> text[i] == '.',
        keep > 0 ==> text[keep - 1] != '.',
    ensures
        without_trailing_dots(text) == text.take(keep),
    decreases text.len() - keep,
{
    if keep < text.len() {
        lemma_without_trailing_dots_takes(text.drop_last(), keep);
        assert(text.drop_last().take(keep) =~= text.take(keep));
    } else {
        assert(text.take(keep) =~= text);
    }
}

fn drop_trailing_dots(text: &str) -> (rest: String)
    ensures
        rest@ == without_trailing_dots(text@),
{
    let chars = chars_of(text);
    let mut end: usize = chars.len();
    while end > 0 && chars[end - 1] == '.'
        invariant
            end <= chars@.len(),
            forall|i: int| end <= i < chars@.len() ==> chars@[i] == '.',
        ensures
            end > 0 ==> chars@[end - 1] != '.',
        decreases end,
    {
        end -= 1;
    }
    proof {
        lemma_without_trailing_dots_takes(chars@, end as int);
        assert(chars@.take(end as int) =~= chars@.subrange(0, end as int));
    }
    string_between(&chars, 0, end)
}

fn chars_are_domain(chars: &Vec<char>) -> (answer: bool)
    ensures
        answer == is_domain(chars@),
{
    let count: usize = chars.len();
    if count == 0 || count > 253 {
        return false;
    }
    if !ascii_alphanumeric(chars[0]) || !ascii_alphanumeric(chars[count - 1]) {
        return false;
    }
    let mut i: usize = 0;
    while i < count
        invariant
            i <= count,
            0 < count == chars@.len() <= 253,
            text::is_ascii_alphanumeric(chars@.first()),
            text::is_ascii_alphanumeric(chars@.last()),
            forall|k: int|
                0 <= k < i ==> (text::is_ascii_alphanumeric(#[trigger] chars@[k]) || chars@[k] == '-'
                    || chars@[k] == '.'),
            forall|k: int|
                0 < k < i && k < count - 1 && #[trigger] chars@[k] == '.' ==> text::is_ascii_alphanumeric(
                    chars@[k - 1],
                ) && text::is_ascii_alphanumeric(chars@[k + 1]),
        decreases count - i,
    {
        let c = chars[i];
        if c == '.' {
            if i > 0 && i < count - 1 {
                if !ascii_alphanumeric(chars[i - 1]) || !ascii_alphanumeric(chars[i + 1]) {
                    return false;
                }
            }
        } else if c != '-' && !ascii_alphanumeric(c) {
            return false;
        }
        i += 1;
    }
    true
}

/// The part of [`normalize_domain`] that comes after lower-casing.
pub fn domain_from_lowered(lower: &str) -> (domain: Option<String>)
    ensures
        text::text_of(domain) == domain_of_lowered(lower@),
{
    let chars = chars_of(lower);
    proof {
        assert(chars@.skip(0) =~= chars@);
    }
    let start: usize = if chars.len() >= 4 && chars[0] == 'w' && chars[1] == 'w' && chars[2] == 'w'
        && chars[3] == '.' {
        proof {
            assert(lower@.subrange(0, 4) =~= www_prefix());
        }
        4
    } else {
        proof {
            if text::stands_at(lower@, www_prefix(), 0) {
                let head = lower@.subrange(0, 4);
                assert(head[0] == 'w' && head[1] == 'w' && head[2] == 'w' && head[3] == '.');
            }
        }
        0
    };
    let rest = string_between(&chars, start, chars.len());
    proof {
        assert(rest@ =~= without_www(lower@));
    }
    if chars_are_domain(&chars_of(rest.as_str())) {
        Some(rest)
    } else {
        None
    }
}

pub fn normalize_domain(value: &str) -> (domain: Option<String>)
    ensures
        text::text_of(domain) == normalized_domain(value@),
        domain matches Some(found) ==> normalized_domain(found@) == Some(found@) || text::stands_at(
            found@,
            www_prefix(),
            0,
        ),
{
    let bare = drop_trailing_dots(trim(value).as_str());
    let lower = to_lower(bare.as_str());
    let domain = domain_from_lowered(lower.as_str());
    proof {
        if domain is Some {
            lemma_domain_is_stable(domain->0@);
        }
    }
    domain
}

/// A domain in lower case that has no leading `www.` is its own normal form.
pub proof fn lemma_domain_is_stable(domain: Seq<char>)
    requires
        is_domain(domain),
        text::has_no_ascii_capital(domain),
    ensures
        text::stands_at(domain, www_prefix(), 0) || normalized_domain(domain) == Some(domain),
{
    assert(text::trim_start(domain) == domain);
    assert(text::trim_end(domain) == domain);
    assert(without_trailing_dots(domain) == domain);
    assert(text::is_ascii_text(domain));
    assert(text::lowered(domain) =~= domain);
}

} // verus!
