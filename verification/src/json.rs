//! Reading and writing JSON objects.

use vstd::prelude::*;

verus! {

/// A member of an object, as far as it is told apart. A list keeps a place for what is no text.
#[derive(Debug)]
pub enum JsonMember {
    Text(String),
    Count(u64),
    Texts(Vec<Option<String>>),
    Other,
}

#[verifier::ext_equal]
pub enum MemberView {
    Text(Seq<char>),
    Count(u64),
    Texts(Seq<Option<Seq<char>>>),
    Other,
}

pub open spec fn item_view(item: Option<String>) -> Option<Seq<char>> {
    match item {
        Some(text) => Some(text@),
        None => None,
    }
}

impl View for JsonMember {
    type V = MemberView;

    open spec fn view(&self) -> MemberView {
        match self {
            JsonMember::Text(text) => MemberView::Text(text@),
            JsonMember::Count(count) => MemberView::Count(*count),
            JsonMember::Texts(items) => MemberView::Texts(
                items@.map_values(|item: Option<String>| item_view(item)),
            ),
            JsonMember::Other => MemberView::Other,
        }
    }
}

/// A member of an object that is written.
#[derive(Debug)]
pub enum JsonText {
    Text(String),
    Texts(Vec<String>),
}

impl View for JsonText {
    type V = MemberView;

    open spec fn view(&self) -> MemberView {
        match self {
            JsonText::Text(text) => MemberView::Text(text@),
            JsonText::Texts(items) => MemberView::Texts(
                items@.map_values(|item: String| Some(item@)),
            ),
        }
    }
}

/// The member of a document under a key, `None` if it is no object or has no such member; or
/// what is wrong with the document.
pub uninterp spec fn json_member(document: Seq<char>, key: Seq<char>) -> Result<
    Option<MemberView>,
    Seq<char>,
>;

/// The result of [`read_member`] in terms of views.
pub open spec fn member_view(member: Result<Option<JsonMember>, String>) -> Result<
    Option<MemberView>,
    Seq<char>,
> {
    match member {
        Ok(Some(member)) => Ok(Some(member@)),
        Ok(None) => Ok(None),
        Err(problem) => Err(problem@),
    }
}

/// `serde_json::from_str` and `serde_json::Value::get`: the member, or the error's message,
/// depends on the document and the key alone.
#[verifier::external_body]
pub(crate) fn read_member(document: &str, key: &str) -> (member: Result<Option<JsonMember>, String>)
    ensures
        member_view(member) == json_member(document@, key@),
{
    let value = serde_json::from_str::<serde_json::Value>(document).map_err(|e| e.to_string())?;
    Ok(value.get(key).map(|found| match found {
        serde_json::Value::String(text) => JsonMember::Text(text.clone()),
        serde_json::Value::Number(number) => match number.as_u64() {
            Some(count) => JsonMember::Count(count),
            None => JsonMember::Other,
        },
        serde_json::Value::Array(items) => JsonMember::Texts(
            items.iter().map(|item| item.as_str().map(str::to_owned)).collect(),
        ),
        _ => JsonMember::Other,
    }))
}

/// The text of an object with these members.
pub uninterp spec fn json_object(members: Seq<(Seq<char>, MemberView)>) -> Seq<char>;

pub open spec fn members_of(members: Seq<(String, JsonText)>) -> Seq<(Seq<char>, MemberView)> {
    members.map_values(|member: (String, JsonText)| (member.0@, member.1@))
}

/// No two members have the same key.
pub open spec fn keys_are_distinct(members: Seq<(Seq<char>, MemberView)>) -> bool {
    forall|i: int, j: int|
        0 <= i < j < members.len() ==> (#[trigger] members[i]).0 != (#[trigger] members[j]).0
}

/// Reading a document gives back the members it was written with.
pub open spec fn gives_back(
    document: Option<Seq<char>>,
    members: Seq<(Seq<char>, MemberView)>,
) -> bool {
    document is Some && keys_are_distinct(members) ==> forall|i: int|
        0 <= i < members.len() ==> json_member(document->0, (#[trigger] members[i]).0) == Ok::<
            Option<MemberView>,
            Seq<char>,
        >(Some(members[i].1))
}

/// `serde_json::to_string_pretty` of an object: the text depends on the members alone, an object
/// with text keys can always be written, and what is written can be read back.
#[verifier::external_body]
pub(crate) fn write_object(members: &Vec<(String, JsonText)>) -> (document: Option<String>)
    ensures
        crate::text::text_of(document) == Some(json_object(members_of(members@))),
        gives_back(crate::text::text_of(document), members_of(members@)),
{
    let mut object = serde_json::Map::new();
    for (key, member) in members {
        let value = match member {
            JsonText::Text(text) => serde_json::Value::from(text.as_str()),
            JsonText::Texts(items) => serde_json::Value::from(items.clone()),
        };
        object.insert(key.clone(), value);
    }
    serde_json::to_string_pretty(&serde_json::Value::Object(object)).ok()
}

/// The shortest text of the value that a document denotes; `None` if it denotes none.
pub uninterp spec fn compact_json(document: Seq<char>) -> Option<Seq<char>>;

/// The text has the members of the document; there is none only if the document is no JSON.
pub open spec fn restates(document: Seq<char>, text: Option<Seq<char>>) -> bool {
    match text {
        Some(text) => forall|key: Seq<char>| #[trigger]
            json_member(text, key) == json_member(document, key) && json_member(text, key) is Ok,
        None => forall|key: Seq<char>| #[trigger] json_member(document, key) is Err,
    }
}

/// `serde_json::from_str` and `serde_json::to_string` of the value: the text depends on the
/// document alone, every value that was read can be written, and reading the text gives the same
/// members.
#[verifier::external_body]
pub(crate) fn rewrite_compactly(document: &str) -> (compact: Option<String>)
    ensures
        crate::text::text_of(compact) == compact_json(document@),
        restates(document@, crate::text::text_of(compact)),
{
    let value = serde_json::from_str::<serde_json::Value>(document).ok()?;
    serde_json::to_string(&value).ok()
}

} // verus!
