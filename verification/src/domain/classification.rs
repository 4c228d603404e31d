//! What kind of text a clip holds.

use crate::text;
use crate::text::{same_text, trim};
use vstd::prelude::*;

verus! {

#[derive(Debug, Clone, Copy, PartialEq, Eq, Structural)]
pub enum ContentType {
    Text,
    Links,
    Email,
    Numbers,
}

/// An e-mail address and nothing else.
pub const EMAIL_PATTERN: &'static str =
    r"(?i)^[a-z0-9.!#$%&'*+/=?^_`{|}~-]+@[a-z0-9](?:[a-z0-9-]{0,61}[a-z0-9])?(?:\.[a-z0-9](?:[a-z0-9-]{0,61}[a-z0-9])?)+$";

/// A number with an optional sign and at most one decimal separator.
pub const NUMBER_PATTERN: &'static str = r"^[+-]?(?:\d+(?:[.,]\d+)?|[.,]\d+)$";

/// Whether a regular expression matches somewhere in a value; `None` for a pattern that is not
/// a regular expression.
pub uninterp spec fn regex_matches(pattern: Seq<char>, value: Seq<char>) -> Option<bool>;

/// `regex::Regex::new` and `is_match`: the answer depends on the pattern and the value alone.
#[verifier::external_body]
fn regex_is_match(pattern: &str, value: &str) -> (answer: Option<bool>)
    ensures
        answer == regex_matches(pattern@, value@),
{
    match regex::Regex::new(pattern) {
        Ok(regex) => Some(regex.is_match(value)),
        Err(_) => None,
    }
}

/// The scheme of an absolute URL; `None` for a value that is not one.
pub uninterp spec fn url_scheme_of(value: Seq<char>) -> Option<Seq<char>>;

/// `url::Url::parse` and `scheme`: the result depends on the value alone.
#[verifier::external_body]
fn url_scheme(value: &str) -> (scheme: Option<String>)
    ensures
        text::text_of(scheme) == url_scheme_of(value@),
{
    match url::Url::parse(value) {
        Ok(url) => Some(url.scheme().to_owned()),
        Err(_) => None,
    }
}

impl ContentType {
    pub open spec fn name(self) -> Seq<char> {
        match self {
            ContentType::Text => "Text"@,
            ContentType::Links => "Links"@,
            ContentType::Email => "Email"@,
            ContentType::Numbers => "Numbers"@,
        }
    }

    pub fn as_str(self) -> (name: &'static str)
        ensures
            name@ == self.name(),
    {
        match self {
            Self::Text => "Text",
            Self::Links => "Links",
            Self::Email => "Email",
            Self::Numbers => "Numbers",
        }
    }

    /// The type with the given name; plain text for a name that is none of the four.
    pub open spec fn named(name: Seq<char>) -> ContentType {
        if name == "Links"@ {
            ContentType::Links
        } else if name == "Email"@ {
            ContentType::Email
        } else if name == "Numbers"@ {
            ContentType::Numbers
        } else {
            ContentType::Text
        }
    }

    pub fn from_name(name: &str) -> (content_type: ContentType)
        ensures
            content_type == ContentType::named(name@),
    {
        if same_text(name, "Links") {
            ContentType::Links
        } else if same_text(name, "Email") {
            ContentType::Email
        } else if same_text(name, "Numbers") {
            ContentType::Numbers
        } else {
            ContentType::Text
        }
    }
}

/// Every type is read back from its name.
pub proof fn content_type_names_are_distinct(content_type: ContentType)
    ensures
        ContentType::named(content_type.name()) == content_type,
{
    reveal_strlit("Text");
    reveal_strlit("Links");
    reveal_strlit("Email");
    reveal_strlit("Numbers");
    assert("Text"@.len() == 4 && "Links"@.len() == 5 && "Email"@.len() == 5 && "Numbers"@.len()
        == 7);
    assert("Links"@[0] != "Email"@[0]);
}

/// The schemes that make a clip a link.
pub open spec fn is_link_scheme(scheme: Seq<char>) -> bool {
    scheme == "http"@ || scheme == "https"@ || scheme == "chrome"@ || scheme == "edge"@ || scheme
        == "about"@ || scheme == "file"@ || scheme == "ftp"@
}

fn link_scheme(scheme: &str) -> (answer: bool)
    ensures
        answer == is_link_scheme(scheme@),
{
    same_text(scheme, "http") || same_text(scheme, "https") || same_text(scheme, "chrome")
        || same_text(scheme, "edge") || same_text(scheme, "about") || same_text(scheme, "file")
        || same_text(scheme, "ftp")
}

/// The type of a text of which it is known whether it is an e-mail address, which scheme it has
/// as a URL, and whether it is a number. The first that applies counts.
pub open spec fn type_from(email: bool, scheme: Option<Seq<char>>, number: bool) -> ContentType {
    if email {
        ContentType::Email
    } else if scheme is Some && is_link_scheme(scheme->0) {
        ContentType::Links
    } else if number {
        ContentType::Numbers
    } else {
        ContentType::Text
    }
}

pub fn classify_from(email: bool, scheme: Option<&str>, number: bool) -> (content_type: ContentType)
    ensures
        content_type == type_from(email, text::slice_of(scheme), number),
{
    if email {
        return ContentType::Email;
    }
    if let Some(scheme) = scheme {
        if link_scheme(scheme) {
            return ContentType::Links;
        }
    }
    if number {
        ContentType::Numbers
    } else {
        ContentType::Text
    }
}

/// The type of a clip's text.
pub open spec fn content_type_of(content: Seq<char>) -> ContentType {
    let value = text::trimmed(content);
    type_from(
        regex_matches(EMAIL_PATTERN@, value) == Some(true),
        url_scheme_of(value),
        regex_matches(NUMBER_PATTERN@, value) == Some(true),
    )
}

pub fn classify(content: &str) -> (content_type: ContentType)
    ensures
        content_type == content_type_of(content@),
{
    let value = trim(content);
    let email = match regex_is_match(EMAIL_PATTERN, value.as_str()) {
        Some(answer) => answer,
        None => false,
    };
    let number = match regex_is_match(NUMBER_PATTERN, value.as_str()) {
        Some(answer) => answer,
        None => false,
    };
    let scheme = url_scheme(value.as_str());
    match &scheme {
        Some(scheme) => classify_from(email, Some(scheme.as_str()), number),
        None => classify_from(email, None, number),
    }
}

} // verus!
