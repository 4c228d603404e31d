//! What the text index is asked for.

use crate::persistence::query;
use crate::persistence::query::QueryView;
use crate::persistence::rows::ClipRowView;
use crate::persistence::search;
use crate::persistence::RepositoryView;
use crate::sequences;
use crate::text;
use vstd::prelude::*;

verus! {

/// A word is asked for as a quoted phrase that may go on.
pub proof fn words_are_quoted(word: Seq<char>)
    requires
        word.len() > 0,
        forall|i: int| 0 <= i < word.len() ==> text::is_alphanumeric(#[trigger] word[i]),
    ensures
        search::fts_expression(word) == seq!['"'] + word + seq!['"', '*'],
{
    let stops = |c: char| !text::is_alphanumeric(c);
    sequences::lemma_is_first_index(word, stops, word.len() as int);
    assert(search::word_len(word) == word.len());
    assert(word.take(word.len() as int) =~= word);
    assert(word.skip(word.len() as int) =~= Seq::empty());
    reveal_with_fuel(search::words, 2);
    let all = search::words(word);
    assert(all =~= seq![word]);
    reveal_with_fuel(search::with_phrases, 3);
    assert(all.drop_first() =~= Seq::empty());
    assert(search::fts_expression(word) == search::phrase(word));
}

/// What stands before and what stands after a character that is neither a letter nor a digit is
/// asked for separately, one after the other.
pub proof fn words_are_asked_for_one_by_one(a: Seq<char>, c: char, b: Seq<char>)
    requires
        !text::is_alphanumeric(c),
    ensures
        ({
            let first = search::fts_expression(a);
            let second = search::fts_expression(b);
            search::fts_expression(a + seq![c] + b) == if first.len() == 0 {
                second
            } else if second.len() == 0 {
                first
            } else {
                first + seq![' '] + second
            }
        }),
{
    lemma_words(a, c, b);
    let x = search::words(a);
    let y = search::words(b);
    let first = search::fts_expression(a);
    let second = search::fts_expression(b);
    lemma_phrases_join(Seq::empty(), x, y);
    if first.len() == 0 {
        assert(first =~= Seq::empty());
    } else if y.len() == 0 {
    } else {
        lemma_phrases_after(first, y);
        lemma_phrases_are_there(Seq::empty(), y);
    }
}

/// Nothing is asked for exactly if there is neither a letter nor a digit.
pub proof fn nothing_is_asked_for_without_words(sought: Seq<char>)
    ensures
        search::fts_expression(sought).len() == 0 <==> forall|i: int|
            0 <= i < sought.len() ==> !text::is_alphanumeric(#[trigger] sought[i]),
{
    lemma_has_words(sought);
    let all = search::words(sought);
    if all.len() > 0 {
        lemma_phrases_are_there(Seq::empty(), all);
    }
}

/// The words of two texts with a separator between them.
proof fn lemma_words(a: Seq<char>, c: char, b: Seq<char>)
    requires
        !text::is_alphanumeric(c),
    ensures
        search::words(a + seq![c] + b) == search::words(a) + search::words(b),
    decreases a.len(),
{
    let whole = a + seq![c] + b;
    let stops = |c: char| !text::is_alphanumeric(c);
    if a.len() == 0 {
        assert(whole.drop_first() =~= b);
        assert(whole[0] == c);
        sequences::lemma_is_first_index(whole, stops, 0);
        assert(search::words(a) + search::words(b) =~= search::words(b));
    } else if stops(a[0]) {
        let rest = a.drop_first();
        assert(whole.drop_first() =~= rest + seq![c] + b);
        assert(whole[0] == a[0]);
        sequences::lemma_is_first_index(whole, stops, 0);
        sequences::lemma_is_first_index(a, stops, 0);
        lemma_words(rest, c, b);
    } else {
        sequences::lemma_first_index(a, stops);
        let n = search::word_len(a);
        assert(n > 0) by {
            if n == 0 {
                assert(stops(a[0]));
            }
        }
        assert forall|k: int| 0 <= k < n implies !stops(#[trigger] whole[k]) by {
            assert(whole[k] == a[k]);
        }
        assert(stops(whole[n])) by {
            if n < a.len() {
                assert(whole[n] == a[n]);
            } else {
                assert(whole[n] == c);
            }
        }
        sequences::lemma_is_first_index(whole, stops, n);
        let rest = a.skip(n);
        assert(whole.skip(n) =~= rest + seq![c] + b);
        assert(whole.take(n) =~= a.take(n));
        lemma_words(rest, c, b);
        assert(search::words(whole) =~= search::words(a) + search::words(b));
    }
}

/// A text has words exactly if it has letters or digits.
proof fn lemma_has_words(sought: Seq<char>)
    ensures
        search::words(sought).len() == 0 <==> forall|i: int|
            0 <= i < sought.len() ==> !text::is_alphanumeric(#[trigger] sought[i]),
    decreases sought.len(),
{
    let stops = |c: char| !text::is_alphanumeric(c);
    if sought.len() > 0 {
        if stops(sought[0]) {
            sequences::lemma_is_first_index(sought, stops, 0);
            let rest = sought.drop_first();
            lemma_has_words(rest);
            if forall|i: int| 0 <= i < rest.len() ==> !text::is_alphanumeric(#[trigger] rest[i]) {
                assert forall|i: int| 0 <= i < sought.len() implies !text::is_alphanumeric(
                    #[trigger] sought[i],
                ) by {
                    if i > 0 {
                        assert(!text::is_alphanumeric(rest[i - 1]));
                    }
                }
            } else {
                let k = choose|k: int|
                    0 <= k < rest.len() && text::is_alphanumeric(#[trigger] rest[k]);
                assert(text::is_alphanumeric(sought[k + 1]));
            }
        } else {
            sequences::lemma_first_index(sought, stops);
            let n = search::word_len(sought);
            if n == 0 {
                assert(stops(sought[0]));
            }
            assert(text::is_alphanumeric(sought[0]));
        }
    }
}

/// Phrases of two lists follow one another.
proof fn lemma_phrases_join(expression: Seq<char>, x: Seq<Seq<char>>, y: Seq<Seq<char>>)
    ensures
        search::with_phrases(expression, x + y) == search::with_phrases(
            search::with_phrases(expression, x),
            y,
        ),
    decreases x.len(),
{
    if x.len() == 0 {
        assert(x + y =~= y);
    } else {
        assert((x + y).drop_first() =~= x.drop_first() + y);
        assert((x + y)[0] == x[0]);
        if expression.len() == 0 {
            lemma_phrases_join(search::phrase(x[0]), x.drop_first(), y);
        } else {
            lemma_phrases_join(
                expression.push(' ') + search::phrase(x[0]),
                x.drop_first(),
                y,
            );
        }
    }
}

/// Phrases that follow something are preceded by a space.
proof fn lemma_phrases_after(first: Seq<char>, y: Seq<Seq<char>>)
    requires
        first.len() > 0,
        y.len() > 0,
    ensures
        search::with_phrases(first, y) == first + seq![' '] + search::with_phrases(
            Seq::empty(),
            y,
        ),
{
    let head = first + seq![' '];
    let f = search::phrase(y[0]);
    lemma_phrases_prefixed(head, f, y.drop_first());
    assert(first.push(' ') + f =~= head + f);
}

/// What stands before phrases does not change them.
proof fn lemma_phrases_prefixed(head: Seq<char>, f: Seq<char>, y: Seq<Seq<char>>)
    requires
        f.len() > 0,
    ensures
        search::with_phrases(head + f, y) == head + search::with_phrases(f, y),
    decreases y.len(),
{
    if y.len() > 0 {
        let g = f.push(' ') + search::phrase(y[0]);
        assert((head + f).push(' ') + search::phrase(y[0]) =~= head + g);
        lemma_phrases_prefixed(head, g, y.drop_first());
    }
}

/// With a word there is a phrase.
proof fn lemma_phrases_are_there(expression: Seq<char>, y: Seq<Seq<char>>)
    requires
        y.len() > 0 || expression.len() > 0,
    ensures
        search::with_phrases(expression, y).len() > 0,
    decreases y.len(),
{
    if y.len() > 0 {
        if expression.len() == 0 {
            lemma_phrases_are_there(search::phrase(y[0]), y.drop_first());
        } else {
            lemma_phrases_are_there(expression.push(' ') + search::phrase(y[0]), y.drop_first());
        }
    }
}

/// The index is asked about the text and the title of each clip; it can answer only if it takes all
/// of them and can read what it is asked for.
pub proof fn the_index_knows_texts_and_titles(history: RepositoryView, query: QueryView, at: int)
    requires
        0 <= at < history.clips.len(),
    ensures
        history.clips[at].page_title matches Some(title) ==> (history.indexed(query)(at)
            <==> search::fts5_accepts(history.clips[at].content, title, query.expression())),
        history.clips[at].page_title is None ==> (history.indexed(query)(at)
            <==> search::fts5_accepts(
            history.clips[at].content,
            Seq::empty(),
            query.expression(),
        )),
        query.expression() == search::fts_expression(query.sought()),
        history.index_answers(query) ==> search::fts5_reads(query.expression()) && (
        history.clips[at].page_title matches Some(title) ==> search::fts5_takes(
            history.clips[at].content,
            title,
        )),
{
    let contents = history.clips.map_values(|row: ClipRowView| row.content);
    let titles = history.clips.map_values(|row: ClipRowView| query::or_empty(row.page_title));
    if history.index_answers(query) {
        assert(search::fts5_takes(contents[at], titles[at]));
    }
}

} // verus!
