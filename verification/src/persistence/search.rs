//! The full-text index over clips, and the expressions it is asked.

use crate::persistence::RepositoryError;
use crate::sequences;
use crate::text;
use crate::text::chars_of;
use vstd::prelude::*;

verus! {

/// A database connection.
#[verifier::external_type_specification]
#[verifier::external_body]
pub struct ExConnection(rusqlite::Connection);

/// Why a database call failed.
#[verifier::external_type_specification]
#[verifier::external_body]
pub struct ExSqliteError(rusqlite::Error);

/// The documents in the index of a connection: by number, the content and the page title.
pub uninterp spec fn index_contents(connection: rusqlite::Connection) -> Map<
    i64,
    (Seq<char>, Seq<char>),
>;

/// Whether a document with this content and page title matches an expression in an FTS5 index
/// with the trigram tokenizer.
pub uninterp spec fn fts5_accepts(
    content: Seq<char>,
    page_title: Seq<char>,
    expression: Seq<char>,
) -> bool;

/// Whether a connection has the FTS5 table with contents and page titles, split into trigrams.
pub uninterp spec fn holds_index(connection: rusqlite::Connection) -> bool;

/// Whether an FTS5 index takes a document with this content and page title.
pub uninterp spec fn fts5_takes(content: Seq<char>, page_title: Seq<char>) -> bool;

/// Whether an FTS5 index with the trigram tokenizer can read an expression.
pub uninterp spec fn fts5_reads(expression: Seq<char>) -> bool;

/// `rusqlite::Connection::open_in_memory` and `rusqlite::Connection::execute_batch` with the
/// definition of the FTS5 table, which the bundled SQLite knows: an index without documents, as
/// long as memory lasts.
#[verifier::external_body]
fn open_index() -> (result: Result<rusqlite::Connection, rusqlite::Error>)
    ensures
        result is Ok,
        result matches Ok(connection) ==> holds_index(connection),
        result matches Ok(connection) ==> index_contents(connection).dom() == Set::<i64>::empty(),
{
    let connection = rusqlite::Connection::open_in_memory()?;
    connection.execute_batch(
        "CREATE VIRTUAL TABLE clips_fts USING fts5(content, page_title, tokenize='trigram');",
    )?;
    Ok(connection)
}

/// `rusqlite::Connection::execute` with an insertion into the FTS5 table: where it succeeds, the
/// index holds the document under its number. For a new number that depends on the document
/// alone, as long as memory lasts.
#[verifier::external_body]
fn add_document(
    connection: &mut rusqlite::Connection,
    number: i64,
    content: &str,
    page_title: &str,
) -> (result: Result<(), rusqlite::Error>)
    requires
        holds_index(*old(connection)),
        !index_contents(*old(connection)).contains_key(number),
    ensures
        holds_index(*final(connection)),
        result is Ok == fts5_takes(content@, page_title@),
        result is Ok ==> index_contents(*final(connection)) == index_contents(
            *old(connection),
        ).insert(number, (content@, page_title@)),
{
    connection.execute(
        "INSERT INTO clips_fts(rowid, content, page_title) VALUES (?1, ?2, ?3)",
        (number, content, page_title),
    )?;
    Ok(())
}

/// `rusqlite::Statement::query_map` with a `MATCH` over the FTS5 table: where it succeeds, the
/// numbers of the matching documents. Whether a document matches depends on its content, its
/// page title and the expression alone, and whether the expression can be read on the expression
/// alone, as long as memory lasts. An expression that begins with an asterisk is a command to
/// the index and no query.
#[verifier::external_body]
fn find_documents(connection: &rusqlite::Connection, expression: &str) -> (result: Result<
    Vec<i64>,
    rusqlite::Error,
>)
    requires
        holds_index(*connection),
        expression@.len() > 0 ==> expression@[0] != '*',
    ensures
        result is Ok == fts5_reads(expression@),
        result matches Ok(numbers) ==> forall|number: i64| #[trigger]
            numbers@.contains(number) <==> (index_contents(*connection).contains_key(number)
                && fts5_accepts(
                index_contents(*connection)[number].0,
                index_contents(*connection)[number].1,
                expression@,
            )),
{
    let mut statement = connection.prepare("SELECT rowid FROM clips_fts WHERE clips_fts MATCH ?1")?;
    let numbers = statement.query_map([expression], |row| row.get(0))?;
    numbers.collect()
}

/// The runs of letters and digits in a text.
pub open spec fn words(text: Seq<char>) -> Seq<Seq<char>>
    decreases text.len(),
{
    let count = word_len(text);
    if text.len() == 0 {
        Seq::empty()
    } else if count <= 0 || count > text.len() {
        words(text.drop_first())
    } else {
        seq![text.take(count)] + words(text.skip(count))
    }
}

/// How many letters and digits a text begins with.
pub open spec fn word_len(text: Seq<char>) -> int {
    sequences::first_index(text, |c: char| !text::is_alphanumeric(c))
}

/// A word as a phrase whose last token may go on.
pub open spec fn phrase(word: Seq<char>) -> Seq<char> {
    seq!['"'] + word + seq!['"', '*']
}

/// An expression followed by phrases, separated by spaces.
pub open spec fn with_phrases(expression: Seq<char>, words: Seq<Seq<char>>) -> Seq<char>
    decreases words.len(),
{
    if words.len() == 0 {
        expression
    } else if expression.len() == 0 {
        with_phrases(phrase(words[0]), words.drop_first())
    } else {
        with_phrases(expression.push(' ') + phrase(words[0]), words.drop_first())
    }
}

/// The expression that asks for all words of a text.
pub open spec fn fts_expression(search: Seq<char>) -> Seq<char> {
    with_phrases(Seq::empty(), words(search))
}

/// What is followed by phrases stays at the beginning.
proof fn lemma_with_phrases_begins(expression: Seq<char>, words: Seq<Seq<char>>)
    requires
        expression.len() > 0,
    ensures
        with_phrases(expression, words).len() > 0,
        with_phrases(expression, words)[0] == expression[0],
    decreases words.len(),
{
    if words.len() > 0 {
        let next = expression.push(' ') + phrase(words[0]);
        assert(next[0] == expression[0]);
        lemma_with_phrases_begins(next, words.drop_first());
    }
}

/// The expression for a text is empty or begins with a quotation mark.
pub proof fn lemma_expression_is_quoted(search: Seq<char>)
    ensures
        fts_expression(search).len() > 0 ==> fts_expression(search)[0] == '"',
{
    let all = words(search);
    if all.len() > 0 {
        assert(phrase(all[0])[0] == '"');
        lemma_with_phrases_begins(phrase(all[0]), all.drop_first());
    }
}

/// The expression that asks for all words of a text; empty if it has none.
pub fn format_fts_query(search: &str) -> (expression: String)
    ensures
        expression@ == fts_expression(search@),
{
    let chars = chars_of(search);
    let ghost stops = |c: char| !text::is_alphanumeric(c);
    let mut expression = String::new();
    let mut at: usize = 0;
    proof {
        assert(chars@.skip(0) =~= chars@);
        assert(expression@ =~= Seq::empty());
    }
    while at < chars.len()
        invariant
            at <= chars@.len(),
            chars@ == search@,
            stops == (|c: char| !text::is_alphanumeric(c)),
            with_phrases(expression@, words(chars@.skip(at as int))) == fts_expression(search@),
        decreases chars@.len() - at,
    {
        let ghost rest = chars@.skip(at as int);
        let mut end: usize = at;
        while end < chars.len() && chars[end].is_alphanumeric()
            invariant
                at <= end <= chars@.len(),
                at < chars@.len(),
                rest == chars@.skip(at as int),
                stops == (|c: char| !text::is_alphanumeric(c)),
                forall|k: int| 0 <= k < end - at ==> !stops(#[trigger] rest[k]),
            ensures
                end < chars@.len() ==> stops(rest[end - at]),
            decreases chars@.len() - end,
        {
            end += 1;
        }
        proof {
            sequences::lemma_is_first_index(rest, stops, end - at);
            assert(word_len(rest) == end - at);
        }
        if end == at {
            proof {
                assert(rest.drop_first() =~= chars@.skip(at + 1));
            }
            at += 1;
        } else {
            let word = crate::text::string_between(&chars, at, end);
            let ghost before = expression@;
            proof {
                assert(word@ =~= rest.take(end - at));
                assert(rest.skip(end - at) =~= chars@.skip(end as int));
                let tail = words(chars@.skip(end as int));
                let all = seq![word@] + tail;
                assert(words(rest) == all);
                assert(all[0] == word@);
                assert(all.drop_first() =~= tail);
            }
            if crate::text::char_len(expression.as_str()) > 0 {
                expression.push(' ');
            }
            expression.push('"');
            expression.push_str(word.as_str());
            expression.push('"');
            expression.push('*');
            proof {
                if before.len() == 0 {
                    assert(expression@ =~= phrase(word@));
                } else {
                    assert(expression@ =~= before.push(' ') + phrase(word@));
                }
            }
            at = end;
        }
    }
    proof {
        assert(chars@.skip(at as int) =~= Seq::<char>::empty());
    }
    expression
}

/// The index takes each of the documents, and reads the expression.
pub open spec fn index_answers(
    contents: Seq<Seq<char>>,
    page_titles: Seq<Seq<char>>,
    expression: Seq<char>,
) -> bool {
    &&& forall|i: int|
        0 <= i < contents.len() ==> #[trigger] fts5_takes(contents[i], page_titles[i])
    &&& fts5_reads(expression)
}

/// Which of the documents match an expression. A document is a content and a page title.
pub(crate) fn search_documents(
    contents: &Vec<String>,
    page_titles: &Vec<String>,
    expression: &str,
) -> (result: Result<Vec<bool>, RepositoryError>)
    requires
        contents@.len() == page_titles@.len(),
        contents@.len() < i64::MAX,
        expression@.len() > 0 ==> expression@[0] != '*',
    ensures
        result is Ok == index_answers(
            text::texts_of(contents@),
            text::texts_of(page_titles@),
            expression@,
        ),
        match result {
            Ok(hits) => hits@.len() == contents@.len() && forall|i: int|
                0 <= i < hits@.len() ==> #[trigger] hits@[i] == fts5_accepts(
                    contents@[i]@,
                    page_titles@[i]@,
                    expression@,
                ),
            Err(error) => error == RepositoryError::SearchFailed,
        },
{
    let ghost all_contents = text::texts_of(contents@);
    let ghost all_titles = text::texts_of(page_titles@);
    let mut connection = match open_index() {
        Ok(connection) => connection,
        Err(_) => return Err(RepositoryError::SearchFailed),
    };
    let mut i: usize = 0;
    while i < contents.len()
        invariant
            i <= contents@.len(),
            contents@.len() == page_titles@.len(),
            contents@.len() < i64::MAX,
            holds_index(connection),
            all_contents == text::texts_of(contents@),
            all_titles == text::texts_of(page_titles@),
            forall|k: int| 0 <= k < i ==> #[trigger] fts5_takes(all_contents[k], all_titles[k]),
            forall|n: i64|
                #[trigger] index_contents(connection).contains_key(n) <==> 0 <= n < i,
            forall|n: i64|
                0 <= n < i ==> #[trigger] index_contents(connection)[n] == (
                    contents@[n as int]@,
                    page_titles@[n as int]@,
                ),
        decreases contents@.len() - i,
    {
        assert(all_contents[i as int] == contents@[i as int]@);
        assert(all_titles[i as int] == page_titles@[i as int]@);
        match add_document(
            &mut connection,
            i as i64,
            contents[i].as_str(),
            page_titles[i].as_str(),
        ) {
            Ok(()) => {},
            Err(_) => return Err(RepositoryError::SearchFailed),
        }
        i += 1;
    }
    let numbers = match find_documents(&connection, expression) {
        Ok(numbers) => numbers,
        Err(_) => return Err(RepositoryError::SearchFailed),
    };
    let mut hits: Vec<bool> = Vec::new();
    let mut k: usize = 0;
    while k < contents.len()
        invariant
            k <= contents@.len(),
            hits@.len() == k,
            forall|m: int| 0 <= m < k ==> !#[trigger] hits@[m],
        decreases contents@.len() - k,
    {
        hits.push(false);
        k += 1;
    }
    proof {
        assert forall|j: int| 0 <= j < numbers@.len() implies 0 <= #[trigger] numbers@[j]
            < contents@.len() by {
            assert(numbers@.contains(numbers@[j]));
            assert(index_contents(connection).contains_key(numbers@[j]));
        }
    }
    let count: usize = contents.len();
    let mut m: usize = 0;
    while m < numbers.len()
        invariant
            m <= numbers@.len(),
            count == contents@.len(),
            hits@.len() == contents@.len(),
            forall|j: int|
                0 <= j < numbers@.len() ==> 0 <= #[trigger] numbers@[j] < contents@.len(),
            forall|d: int|
                0 <= d < hits@.len() ==> (#[trigger] hits@[d] <==> exists|j: int|
                    0 <= j < m && #[trigger] numbers@[j] == d),
        decreases numbers@.len() - m,
    {
        let at: usize = numbers[m] as usize;
        let ghost before = hits@;
        hits.set(at, true);
        proof {
            assert(numbers@[m as int] == at);
            assert forall|d: int|
                0 <= d < hits@.len() implies (#[trigger] hits@[d] <==> exists|j: int|
                0 <= j < m + 1 && #[trigger] numbers@[j] == d) by {
                if d == at {
                    assert(numbers@[m as int] == d);
                } else if before[d] {
                    let j = choose|j: int| 0 <= j < m && #[trigger] numbers@[j] == d;
                    assert(numbers@[j] == d);
                }
            }
        }
        m += 1;
    }
    proof {
        assert forall|d: int| 0 <= d < hits@.len() implies #[trigger] hits@[d] == fts5_accepts(
            contents@[d]@,
            page_titles@[d]@,
            expression@,
        ) by {
            let n = d as i64;
            if hits@[d] {
                let j = choose|j: int| 0 <= j < m && #[trigger] numbers@[j] == d;
                assert(numbers@.contains(n)) by {
                    assert(numbers@[j] == n);
                }
            }
            assert(index_contents(connection).contains_key(n));
            if numbers@.contains(n) {
                let j = choose|j: int| 0 <= j < numbers@.len() && numbers@[j] == n;
                assert(numbers@[j] == d);
            }
        }
    }
    Ok(hits)
}

} // verus!
