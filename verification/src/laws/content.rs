//! What a copied text is: its normal form, its hash, its kind, and the domain it was copied on.

use crate::domain::classification;
use crate::domain::classification::ContentType;
use crate::domain::normalize;
use crate::text;
use vstd::prelude::*;

verus! {

/// A text whose URL scheme is one of a browser's or a file transfer is a link, unless it is an
/// e-mail address.
pub proof fn urls_are_links(content: Seq<char>)
    requires
        classification::regex_matches(
            classification::EMAIL_PATTERN@,
            text::trimmed(content),
        ) != Some(true),
    ensures
        ({
            let scheme = classification::url_scheme_of(text::trimmed(content));
            let kind = classification::content_type_of(content);
            &&& scheme == Some("http"@) ==> kind == ContentType::Links
            &&& scheme == Some("https"@) ==> kind == ContentType::Links
            &&& scheme == Some("chrome"@) ==> kind == ContentType::Links
            &&& scheme == Some("edge"@) ==> kind == ContentType::Links
            &&& scheme == Some("about"@) ==> kind == ContentType::Links
            &&& scheme == Some("file"@) ==> kind == ContentType::Links
            &&& scheme == Some("ftp"@) ==> kind == ContentType::Links
        }),
{
}

/// Nothing else is a link: what has no scheme or another one is a number or plain text.
pub proof fn only_urls_are_links(content: Seq<char>)
    requires
        classification::content_type_of(content) == ContentType::Links,
    ensures
        ({
            let scheme = classification::url_scheme_of(text::trimmed(content));
            &&& classification::regex_matches(
                classification::EMAIL_PATTERN@,
                text::trimmed(content),
            ) != Some(true)
            &&& scheme matches Some(scheme) && seq![
                "http"@,
                "https"@,
                "chrome"@,
                "edge"@,
                "about"@,
                "file"@,
                "ftp"@,
            ].contains(scheme)
        }),
{
    let scheme = classification::url_scheme_of(text::trimmed(content))->0;
    let known = seq!["http"@, "https"@, "chrome"@, "edge"@, "about"@, "file"@, "ftp"@];
    assert(known[0] == "http"@ && known[1] == "https"@ && known[2] == "chrome"@ && known[3]
        == "edge"@ && known[4] == "about"@ && known[5] == "file"@ && known[6] == "ftp"@);
}

/// An e-mail address is one whatever else it may be; a number is one unless it is an address or a
/// link; the rest is plain text.
pub proof fn addresses_come_first_and_plain_text_last(content: Seq<char>)
    ensures
        ({
            let value = text::trimmed(content);
            let is_email = classification::regex_matches(classification::EMAIL_PATTERN@, value)
                == Some(true);
            let is_number = classification::regex_matches(classification::NUMBER_PATTERN@, value)
                == Some(true);
            let kind = classification::content_type_of(content);
            &&& is_email <==> kind == ContentType::Email
            &&& is_number && !is_email && kind != ContentType::Links ==> kind
                == ContentType::Numbers
            &&& kind == ContentType::Numbers ==> is_number
            &&& !is_email && !is_number && classification::url_scheme_of(value) is None ==> kind
                == ContentType::Text
        }),
{
}

/// White space around a text does not change its kind.
pub proof fn white_space_does_not_change_the_kind(content: Seq<char>)
    ensures
        classification::content_type_of(text::trimmed(content)) == classification::content_type_of(
            content,
        ),
{
    text::lemma_trimmed(content);
    text::lemma_trimmed_is_stable(text::trimmed(content));
}

/// The patterns that addresses and numbers are recognised by.
pub proof fn patterns_are_those_of_addresses_and_numbers()
    ensures
        classification::EMAIL_PATTERN@
            == r"(?i)^[a-z0-9.!#$%&'*+/=?^_`{|}~-]+@[a-z0-9](?:[a-z0-9-]{0,61}[a-z0-9])?(?:\.[a-z0-9](?:[a-z0-9-]{0,61}[a-z0-9])?)+$"@,
        classification::NUMBER_PATTERN@ == r"^[+-]?(?:\d+(?:[.,]\d+)?|[.,]\d+)$"@,
        ContentType::Text.name() == "Text"@,
        ContentType::Links.name() == "Links"@,
        ContentType::Email.name() == "Email"@,
        ContentType::Numbers.name() == "Numbers"@,
{
}

/// A text without carriage returns and without white space at its ends is its own normal form.
pub proof fn plain_texts_are_normal(value: Seq<char>)
    requires
        !value.contains('\r'),
        value.len() > 0 ==> !text::is_white_space(value.first()) && !text::is_white_space(
            value.last(),
        ),
    ensures
        normalize::normalized_content(value) == value,
{
    lemma_without(value, seq!['\r', '\n']);
    lemma_without(value, seq!['\r']);
    crate::laws::words::nothing_is_replaced_by_chance(value, seq!['\r', '\n'], seq!['\n']);
    crate::laws::words::nothing_is_replaced_by_chance(value, seq!['\r'], seq!['\n']);
    text::lemma_trimmed_is_stable(value);
}

proof fn lemma_without(value: Seq<char>, needle: Seq<char>)
    requires
        !value.contains('\r'),
        needle.len() > 0,
        needle[0] == '\r',
    ensures
        !text::contains_text(value, needle),
{
    if text::contains_text(value, needle) {
        let at = choose|at: int| #[trigger] text::stands_at(value, needle, at);
        assert(value.subrange(at, at + needle.len())[0] == value[at]);
    }
}

/// Line ends of all three kinds are alike: two texts that differ in them only have the same
/// normal form, and so the same hash.
pub proof fn line_ends_are_alike(head: Seq<char>, tail: Seq<char>)
    requires
        !head.contains('\r'),
        tail.len() > 0 ==> tail[0] != '\n',
    ensures
        normalize::normalized_content(head + seq!['\r', '\n'] + tail)
            == normalize::normalized_content(head + seq!['\n'] + tail),
        normalize::normalized_content(head + seq!['\r'] + tail) == normalize::normalized_content(
            head + seq!['\n'] + tail,
        ),
{
    let pair = seq!['\r', '\n'];
    let cr = seq!['\r'];
    let lf = seq!['\n'];
    let rest = text::replaced(tail, pair, lf);
    // Pairs.
    lemma_none_before(head, pair, tail);
    crate::laws::words::replacing_goes_from_left_to_right(head, pair, tail, lf);
    lemma_passes(head + lf, tail, pair, lf);
    lemma_passes(head, cr + tail, pair, lf);
    assert(head + lf + rest =~= (head + lf) + rest);
    assert(!text::stands_at(cr + tail, pair, 0)) by {
        if text::stands_at(cr + tail, pair, 0) {
            assert((cr + tail).subrange(0, 2)[1] == (cr + tail)[1]);
            assert((cr + tail)[1] == tail[0]);
        }
    }
    assert((cr + tail).drop_first() =~= tail);
    assert(text::replaced(cr + tail, pair, lf) == seq!['\r'] + rest);
    assert(head + (cr + tail) =~= head + cr + tail);
    assert(head + (cr + rest) =~= head + cr + rest);
    // Single ones.
    lemma_none_before(head, cr, rest);
    crate::laws::words::replacing_goes_from_left_to_right(head, cr, rest, lf);
    lemma_passes(head + lf, rest, cr, lf);
}

proof fn lemma_none_before(head: Seq<char>, needle: Seq<char>, tail: Seq<char>)
    requires
        !head.contains('\r'),
        needle.len() > 0,
        needle[0] == '\r',
    ensures
        forall|at: int|
            0 <= at < head.len() ==> !text::stands_at(head + needle + tail, needle, at),
{
    assert forall|at: int| 0 <= at < head.len() implies !text::stands_at(
        head + needle + tail,
        needle,
        at,
    ) by {
        if text::stands_at(head + needle + tail, needle, at) {
            assert((head + needle + tail).subrange(at, at + needle.len())[0] == head[at]);
        }
    }
}

/// What has no carriage return stays in front of what is replaced.
proof fn lemma_passes(head: Seq<char>, tail: Seq<char>, from: Seq<char>, to: Seq<char>)
    requires
        forall|i: int| 0 <= i < head.len() ==> head[i] != '\r',
        from.len() > 0,
        from[0] == '\r',
    ensures
        text::replaced(head + tail, from, to) == head + text::replaced(tail, from, to),
    decreases head.len(),
{
    if head.len() == 0 {
        assert(head + tail =~= tail);
        assert(head + text::replaced(tail, from, to) =~= text::replaced(tail, from, to));
    } else {
        let whole = head + tail;
        assert(!text::stands_at(whole, from, 0)) by {
            if text::stands_at(whole, from, 0) {
                assert(whole.subrange(0, from.len() as int)[0] == head[0]);
            }
        }
        assert(whole.drop_first() =~= head.drop_first() + tail);
        lemma_passes(head.drop_first(), tail, from, to);
        assert(seq![head[0]] + (head.drop_first() + text::replaced(tail, from, to)) =~= head
            + text::replaced(tail, from, to));
    }
}

/// The hash of a text is that of its bytes.
pub proof fn hashes_are_those_of_the_bytes(value: Seq<char>)
    ensures
        normalize::hash_of(value) == crate::hashing::hex_text(
            crate::hashing::sha256_digest(vstd::utf8::encode_utf8(value)),
        ),
{
}

/// A host name in small ASCII letters, digits and hyphens, with labels that begin and end with a
/// letter or digit, is a domain; a leading `www.` and trailing dots do not matter, nor do capital
/// letters and white space around it.
pub proof fn host_names_are_domains(host: Seq<char>)
    requires
        0 < host.len() <= 253,
        forall|i: int|
            0 <= i < host.len() ==> ('a' <= #[trigger] host[i] && host[i] <= 'z') || ('0' <= host[i]
                && host[i] <= '9') || host[i] == '-' || host[i] == '.',
        host[0] != '-' && host[0] != '.',
        host.last() != '-' && host.last() != '.',
        forall|i: int|
            0 < i < host.len() - 1 && #[trigger] host[i] == '.' ==> host[i - 1] != '.' && host[i - 1]
                != '-' && host[i + 1] != '.' && host[i + 1] != '-',
        !text::stands_at(host, seq!['w', 'w', 'w', '.'], 0),
    ensures
        normalize::normalized_domain(host) == Some(host),
        normalize::normalized_domain(host.push('.')) == Some(host),
        normalize::normalized_domain(seq!['w', 'w', 'w', '.'] + host) == Some(host),
{
    let www = seq!['w', 'w', 'w', '.'];
    assert(text::is_ascii_text(host));
    assert(text::ascii_lowercase(host) =~= host);
    text::lemma_trimmed_is_stable(host);
    assert(normalize::without_trailing_dots(host) == host);
    let dotted = host.push('.');
    text::lemma_trimmed_is_stable(dotted);
    assert(dotted.drop_last() =~= host);
    let long = www + host;
    text::lemma_trimmed_is_stable(long);
    assert(long.last() == host.last());
    assert(normalize::without_trailing_dots(long) == long);
    assert(text::is_ascii_text(long));
    assert(text::ascii_lowercase(long) =~= long);
    assert(long.subrange(0, 4) =~= www);
    assert(long.skip(4) =~= host);
    assert(normalize::is_domain(host));
}

/// Capital ASCII letters do not matter in a domain.
pub proof fn capitals_do_not_matter_in_a_domain(host: Seq<char>)
    requires
        text::is_ascii_text(host),
    ensures
        normalize::normalized_domain(text::ascii_lowercase(host)) == normalize::normalized_domain(
            host,
        ),
{
    let small = text::ascii_lowercase(host);
    let (from, to) = crate::laws::words::trimming_takes_only_white_space(host);
    let (low, high) = crate::laws::words::trimming_takes_only_white_space(small);
    assert forall|i: int| 0 <= i < host.len() implies text::is_white_space(#[trigger] small[i])
        == text::is_white_space(host[i]) by {}
    lemma_same_ends(host, small, from, to, low, high);
    assert(text::trimmed(small) =~= text::ascii_lowercase(text::trimmed(host)));
    lemma_dots(text::trimmed(host));
    let bare = normalize::without_trailing_dots(text::trimmed(host));
    assert(text::is_ascii_text(bare)) by {
        lemma_dots_take(text::trimmed(host));
    }
    let lower = text::ascii_lowercase(bare);
    assert(text::is_ascii_text(lower));
    assert(text::ascii_lowercase(lower) =~= lower);
}

proof fn lemma_same_ends(
    host: Seq<char>,
    small: Seq<char>,
    from: int,
    to: int,
    low: int,
    high: int,
)
    requires
        small.len() == host.len(),
        forall|i: int|
            0 <= i < host.len() ==> text::is_white_space(#[trigger] small[i])
                == text::is_white_space(host[i]),
        0 <= from <= to <= host.len(),
        0 <= low <= high <= small.len(),
        forall|i: int|
            0 <= i < from || to <= i < host.len() ==> text::is_white_space(#[trigger] host[i]),
        from < to ==> !text::is_white_space(host[from]) && !text::is_white_space(host[to - 1]),
        forall|i: int|
            0 <= i < low || high <= i < small.len() ==> text::is_white_space(#[trigger] small[i]),
        low < high ==> !text::is_white_space(small[low]) && !text::is_white_space(small[high - 1]),
    ensures
        (from == low && to == high) || (from == to && low == high),
{
    if from < to {
        assert(!text::is_white_space(small[from]));
        assert(!text::is_white_space(small[to - 1]));
    }
    if low < high {
        assert(!text::is_white_space(host[low]));
        assert(!text::is_white_space(host[high - 1]));
    }
}

proof fn lemma_dots(value: Seq<char>)
    ensures
        normalize::without_trailing_dots(text::ascii_lowercase(value)) == text::ascii_lowercase(
            normalize::without_trailing_dots(value),
        ),
    decreases value.len(),
{
    let small = text::ascii_lowercase(value);
    if value.len() > 0 && value.last() == '.' {
        assert(small.drop_last() =~= text::ascii_lowercase(value.drop_last()));
        lemma_dots(value.drop_last());
    }
}

proof fn lemma_dots_take(value: Seq<char>)
    ensures
        exists|count: int|
            0 <= count <= value.len() && normalize::without_trailing_dots(value)
                == #[trigger] value.take(count),
    decreases value.len(),
{
    if value.len() > 0 && value.last() == '.' {
        lemma_dots_take(value.drop_last());
        let count = choose|count: int|
            0 <= count <= value.len() - 1 && normalize::without_trailing_dots(value.drop_last())
                == #[trigger] value.drop_last().take(count);
        assert(value.drop_last().take(count) =~= value.take(count));
    } else {
        assert(value.take(value.len() as int) =~= value);
    }
}

/// What is accepted as a domain is short, made of ASCII letters, digits, hyphens and dots, begins
/// and ends with a letter or digit, and has neither an empty label nor one with a hyphen at its
/// edge.
pub proof fn domains_are_host_names(value: Seq<char>, i: int)
    requires
        normalize::normalized_domain(value) is Some,
        0 <= i < normalize::normalized_domain(value)->0.len(),
    ensures
        ({
            let domain = normalize::normalized_domain(value)->0;
            &&& 0 < domain.len() <= 253
            &&& text::is_ascii_alphanumeric(domain[i]) || domain[i] == '-' || domain[i] == '.'
            &&& domain[0] != '-' && domain[0] != '.'
            &&& domain.last() != '-' && domain.last() != '.'
            &&& domain[i] == '.' ==> text::is_ascii_alphanumeric(domain[i - 1])
                && text::is_ascii_alphanumeric(domain[i + 1])
        }),
{
}

} // verus!
