//! Which clips a query lists, in what order, and what is shown of them.

use crate::domain::ClipSummary;
use crate::persistence::laws;
use crate::persistence::query;
use crate::persistence::query::QueryView;
use crate::persistence::rows::{BlobRowView, CategoryRowView, ClipRowView};
use crate::persistence::summary;
use crate::persistence::{RepositoryError, RepositoryView};
use crate::ranking;
use crate::sequences;
use crate::text;
use vstd::prelude::*;

verus! {

/// Without white space at its ends and without regard to case, this is what is sought; without a
/// search nothing is.
pub proof fn searches_are_trimmed_and_in_lower_case(query: QueryView)
    ensures
        query.search matches Some(search) ==> query.sought() == text::lowered(
            text::trimmed(search),
        ),
        query.search is None ==> query.sought().len() == 0,
{
    query::lemma_no_search_has_no_expression(
        QueryView { search: None, ..query },
    );
}

/// A text without a NUL character is like a sought text exactly if that stands somewhere in it,
/// once its capitals are small letters.
pub proof fn likeness_is_containing(words: Seq<char>, sought: Seq<char>)
    requires
        text::before_nul(sought) == sought,
        text::before_nul(text::lowered(words)) == text::lowered(words),
    ensures
        query::is_like(words, sought) <==> exists|head: Seq<char>, tail: Seq<char>|
            #[trigger] (head + sought + tail) == text::lowered(words),
{
    let low = text::lowered(words);
    if text::contains_text(low, sought) {
        let at = choose|at: int| #[trigger] text::stands_at(low, sought, at);
        let head = low.take(at);
        let tail = low.skip((at + sought.len()) as int);
        assert(head + sought + tail =~= low);
    }
    if exists|head: Seq<char>, tail: Seq<char>| #[trigger] (head + sought + tail) == low {
        let (head, tail) = choose|head: Seq<char>, tail: Seq<char>|
            #[trigger] (head + sought + tail) == low;
        assert(low.subrange(head.len() as int, (head.len() + sought.len()) as int) =~= sought);
        assert(text::stands_at(low, sought, head.len() as int));
    }
}

/// A listed clip.
proof fn lemma_listed(
    history: RepositoryView,
    query: QueryView,
    indexed: spec_fn(int) -> bool,
    at: int,
)
    requires
        history.listed(query, indexed).contains(at),
    ensures
        0 <= at < history.clips.len(),
        history.is_asked_for(query, at, indexed),
{
    let page = history.listed(query, indexed);
    let k = choose|k: int| 0 <= k < page.len() && page[k] == at;
    laws::listed_clips_are_asked_for(history, query, indexed, k);
}

/// A listed clip has the content type, the domain and the kind of payload that the query names,
/// and is in the category that it names; if it names a content type and no kind, the clip is a
/// text.
pub proof fn listed_clips_pass_the_filters(
    history: RepositoryView,
    query: QueryView,
    indexed: spec_fn(int) -> bool,
    at: int,
)
    requires
        history.listed(query, indexed).contains(at),
    ensures
        0 <= at < history.clips.len(),
        query.content_type matches Some(content_type) ==> history.clips[at].content_type
            == content_type,
        query.domain matches Some(domain) ==> history.clips[at].domain == Some(domain),
        query.payload_kind matches Some(kind) ==> history.clips[at].payload_kind == kind,
        query.payload_kind is None && query.content_type is Some
            ==> history.clips[at].payload_kind is Text,
        query.category_id matches Some(id) ==> history.has_link(history.clips[at].id, id),
{
    lemma_listed(history, query, indexed, at);
}

/// A text that may be absent, as one to look into.
pub open spec fn text_or_none(words: Option<Seq<char>>) -> Seq<char> {
    match words {
        Some(words) => words,
        None => Seq::empty(),
    }
}

/// A clip is not listed if the search finds nothing of it: the text index does not find it, its
/// domain does not contain the sought text, nor do its content and its title if the search is a
/// short one, nor does the name of the category that is asked for, or, if none is, of any category
/// that the clip is in.
pub proof fn clips_without_the_sought_text_are_not_listed(
    history: RepositoryView,
    query: QueryView,
    indexed: spec_fn(int) -> bool,
    at: int,
)
    requires
        0 <= at < history.clips.len(),
        query.sought().len() > 0,
        !indexed(at),
        !query::is_like(history.clips[at].content, query.sought()) || query.sought().len() >= 3
            && query.expression().len() > 0,
        !query::is_like(text_or_none(history.clips[at].page_title), query.sought())
            || query.sought().len() >= 3 && query.expression().len() > 0,
        !query::is_like(text_or_none(history.clips[at].domain), query.sought()),
        forall|c: int|
            0 <= c < history.categories.len() && history.has_link(
                history.clips[at].id,
                (#[trigger] history.categories[c]).category.id,
            ) && (query.category_id is Some ==> query.category_id
                == Some(history.categories[c].category.id)) ==> !query::is_like(
                history.categories[c].category.name,
                query.sought(),
            ),
    ensures
        !history.listed(query, indexed).contains(at),
{
    if history.listed(query, indexed).contains(at) {
        lemma_listed(history, query, indexed, at);
        match query.category_id {
            Some(id) => {
                assert(!history.is_found(query, at, indexed));
                let c = choose|c: int|
                    0 <= c < history.categories.len() && history.categories[c].category.id == id
                        && #[trigger] query.names(history.categories[c]);
                assert(history.has_link(
                    history.clips[at].id,
                    history.categories[c].category.id,
                ));
            },
            None => {
                assert(!history.is_found(query, at, indexed));
                let c = choose|c: int|
                    0 <= c < history.categories.len() && #[trigger] history.is_in(at, c)
                        && query.names(history.categories[c]);
                assert(history.has_link(
                    history.clips[at].id,
                    history.categories[c].category.id,
                ));
            },
        }
    }
}

/// What is listed with a search and a category is listed with the same search and no category.
pub proof fn a_category_narrows_a_search(
    history: RepositoryView,
    query: QueryView,
    indexed: spec_fn(int) -> bool,
    at: int,
) -> (offset: int)
    requires
        history.clips.len() <= u32::MAX,
        query.category_id is Some,
        history.listed(query, indexed).contains(at),
    ensures
        0 <= offset <= u32::MAX,
        history.listed(
            QueryView { category_id: None, offset: Some(offset as u32), ..query },
            indexed,
        ).contains(at),
{
    lemma_listed(history, query, indexed, at);
    let wider = QueryView { category_id: None, ..query };
    lemma_same_search(history, query, wider, at, indexed);
    if !history.is_found(query, at, indexed) {
        let id = query.category_id->0;
        let c = choose|c: int|
            0 <= c < history.categories.len() && history.categories[c].category.id == id
                && #[trigger] query.names(history.categories[c]);
        assert(history.is_in(at, c));
        assert(wider.names(history.categories[c]));
    }
    assert(history.is_asked_for(wider, at, indexed));
    let offset = laws::asked_clips_are_listed(history, wider, indexed, at);
    let turned = QueryView { offset: Some(offset as u32), ..wider };
    let page = history.listed(turned, indexed);
    assert(page.contains(page[0]));
    assert(turned == (QueryView { category_id: None, offset: Some(offset as u32), ..query }));
    offset
}

/// Two queries with the same search find the same.
proof fn lemma_same_search(
    history: RepositoryView,
    a: QueryView,
    b: QueryView,
    at: int,
    indexed: spec_fn(int) -> bool,
)
    requires
        a.sought() == b.sought(),
    ensures
        history.is_found(a, at, indexed) == history.is_found(b, at, indexed),
        forall|row: CategoryRowView| #[trigger] a.names(row) == b.names(row),
{
}

/// A clip is listed, on some page, if it passes the filters and one of these holds: nothing is
/// sought; the text index finds it; its domain contains the sought text; the search is too short
/// for the index, the clip is one of the latest, and its content or its title contains the sought
/// text; or it is in a category whose name contains the sought text, and which is the one that is
/// asked for, if one is.
pub proof fn clips_with_the_sought_text_are_listed(
    history: RepositoryView,
    query: QueryView,
    indexed: spec_fn(int) -> bool,
    at: int,
    c: int,
) -> (offset: int)
    requires
        history.clips.len() <= u32::MAX,
        0 <= at < history.clips.len(),
        query.content_type matches Some(content_type) ==> history.clips[at].content_type
            == content_type && (query.payload_kind is None ==> history.clips[at].payload_kind is Text),
        query.domain matches Some(domain) ==> history.clips[at].domain == Some(domain),
        query.payload_kind matches Some(kind) ==> history.clips[at].payload_kind == kind,
        query.category_id matches Some(id) ==> history.has_link(history.clips[at].id, id),
        ({
            let row = history.clips[at];
            let sought = query.sought();
            let category = history.categories[c].category;
            ||| sought.len() == 0
            ||| indexed(at) && query.expression().len() > 0
            ||| query::is_like(text_or_none(row.domain), sought)
            ||| (sought.len() < 3 || query.expression().len() == 0) && history.latest().contains(at)
                && (query::is_like(row.content, sought) || query::is_like(
                text_or_none(row.page_title),
                sought,
            ))
            ||| 0 <= c < history.categories.len() && history.has_link(row.id, category.id)
                && query::is_like(category.name, sought) && (query.category_id is Some
                ==> query.category_id == Some(category.id))
        }),
    ensures
        0 <= offset <= u32::MAX,
        history.listed(QueryView { offset: Some(offset as u32), ..query }, indexed).contains(at),
{
    if 0 <= c < history.categories.len() && history.has_link(
        history.clips[at].id,
        history.categories[c].category.id,
    ) && query::is_like(history.categories[c].category.name, query.sought())
        && query.sought().len() > 0 {
        assert(history.is_in(at, c));
        assert(query.names(history.categories[c]));
    }
    assert(history.is_asked_for(query, at, indexed));
    let offset = laws::asked_clips_are_listed(history, query, indexed, at);
    let page = history.listed(QueryView { offset: Some(offset as u32), ..query }, indexed);
    assert(page.contains(page[0]));
    offset
}

/// A short search looks through all clips if there are no more than 5000, and through 5000 else,
/// none of which was copied before one that is left out.
pub proof fn short_searches_look_at_the_latest(history: RepositoryView, at: int, other: int)
    requires
        0 <= at < history.clips.len(),
        0 <= other < history.clips.len(),
    ensures
        history.clips.len() <= 5000 ==> history.latest().contains(at),
        history.clips.len() > 5000 ==> history.latest().len() == 5000,
        history.latest().contains(at) && !history.latest().contains(other)
            ==> history.clips[at].last_copied_at >= history.clips[other].last_copied_at,
{
    laws::lemma_clip_order(history);
    let order = history.clip_order();
    let latest = history.latest();
    assert(order.contains(at) && order.contains(other));
    if latest.contains(at) && !latest.contains(other) {
        let a = choose|a: int| 0 <= a < latest.len() && latest[a] == at;
        let b = choose|b: int| 0 <= b < order.len() && order[b] == other;
        if b < latest.len() {
            assert(latest[b] == other);
            assert(latest.contains(other));
        }
        let precedes = |i: int, j: int| query::clip_precedes(history.clips, i, j);
        assert(order[a] == at);
        assert(precedes(order[a], order[b]));
    }
}

/// The clip that was copied last is listed first; of two copied at the same time that with the
/// larger sort key; else the older row.
pub proof fn the_latest_is_listed_first(
    history: RepositoryView,
    query: QueryView,
    indexed: spec_fn(int) -> bool,
    a: int,
    b: int,
)
    requires
        0 <= a < b < history.listed(query, indexed).len(),
    ensures
        ({
            let page = history.listed(query, indexed);
            let first = history.clips[page[a]];
            let second = history.clips[page[b]];
            &&& first.last_copied_at >= second.last_copied_at
            &&& first.last_copied_at == second.last_copied_at ==> first.sort_key >= second.sort_key
            &&& first.last_copied_at == second.last_copied_at && first.sort_key == second.sort_key
                ==> page[a] < page[b]
            &&& page[a] != page[b]
        }),
{
    laws::listed_clips_are_in_order(history, query, indexed, a, b);
}

/// All that a query asks for, on one page without end.
spec fn everything(
    history: RepositoryView,
    query: QueryView,
    indexed: spec_fn(int) -> bool,
) -> Seq<int> {
    history.clip_order().filter(|at: int| history.is_asked_for(query, at, indexed))
}

proof fn lemma_same_everything(
    history: RepositoryView,
    a: QueryView,
    b: QueryView,
    indexed: spec_fn(int) -> bool,
)
    requires
        a == (QueryView { limit: a.limit, offset: a.offset, ..b }),
    ensures
        everything(history, a, indexed) == everything(history, b, indexed),
{
    assert forall|at: int| #[trigger]
        history.is_asked_for(a, at, indexed) == history.is_asked_for(b, at, indexed) by {
        lemma_same_search(history, a, b, at, indexed);
        lemma_same_search(history, b, a, at, indexed);
        assert(a.admits(history.clips[at]) == b.admits(history.clips[at]));
    }
    assert((|at: int| history.is_asked_for(a, at, indexed)) =~= (|at: int|
        history.is_asked_for(b, at, indexed)));
}

/// A page that begins further on leaves out so many clips more, and pages of one and the same
/// listing agree where they overlap.
pub proof fn pages_follow_one_another(
    history: RepositoryView,
    query: QueryView,
    indexed: spec_fn(int) -> bool,
    offset: u32,
    step: u32,
    k: int,
)
    requires
        offset + step <= u32::MAX,
        0 <= k,
    ensures
        ({
            let here = history.listed(QueryView { offset: Some(offset), ..query }, indexed);
            let there = history.listed(
                QueryView { offset: Some((offset + step) as u32), ..query },
                indexed,
            );
            &&& step + k < here.len() ==> k < there.len() && there[k] == here[step + k]
            &&& step <= here.len() && k < there.len() && step + k < query.page_limit() ==> step + k
                < here.len()
        }),
{
    let a = QueryView { offset: Some(offset), ..query };
    let b = QueryView { offset: Some((offset + step) as u32), ..query };
    lemma_same_everything(history, a, b, indexed);
    assert(a.page_limit() == query.page_limit());
    assert(b.page_limit() == query.page_limit());
}

/// A page has the asked number of clips at most, one hundred if no number is asked for, but at
/// least one and no more than two hundred; a page with fewer is the last one.
pub proof fn pages_are_full_but_the_last(
    history: RepositoryView,
    query: QueryView,
    indexed: spec_fn(int) -> bool,
    offset: u32,
    later: u32,
)
    requires
        offset < later,
    ensures
        ({
            let size = match query.limit {
                None => 100int,
                Some(limit) => if limit == 0 {
                    1int
                } else if limit > 200 {
                    200int
                } else {
                    limit as int
                },
            };
            let page = history.listed(QueryView { offset: Some(offset), ..query }, indexed);
            let beyond = history.listed(QueryView { offset: Some(later), ..query }, indexed);
            &&& page.len() <= size
            &&& page.len() < size && later >= offset + page.len() ==> beyond.len() == 0
        }),
{
    let a = QueryView { offset: Some(offset), ..query };
    let b = QueryView { offset: Some(later), ..query };
    lemma_same_everything(history, a, b, indexed);
}

/// A listing that names no beginning begins with the first clip.
pub proof fn listings_begin_with_the_first(
    history: RepositoryView,
    query: QueryView,
    indexed: spec_fn(int) -> bool,
)
    requires
        query.offset is None,
    ensures
        history.listed(query, indexed) == history.listed(
            QueryView { offset: Some(0), ..query },
            indexed,
        ),
{
    let b = QueryView { offset: Some(0), ..query };
    lemma_same_everything(history, query, b, indexed);
    assert(history.listed(query, indexed) =~= history.listed(b, indexed));
}

/// Nothing fails but a search for a text whose pattern takes more than fifty thousand bytes, and
/// an image without its file; else every listed clip is shown, in the order of the listing.
pub proof fn listed_clips_are_shown(
    history: RepositoryView,
    query: QueryView,
    indexed: spec_fn(int) -> bool,
    result: Result<Vec<ClipSummary>, RepositoryError>,
)
    requires
        query::clips_listed(history, query, indexed, result),
    ensures
        match result {
            Ok(summaries) => {
                let page = history.listed(query, indexed);
                &&& summaries@.len() == page.len()
                &&& forall|k: int|
                    0 <= k < page.len() ==> (#[trigger] summaries@[k])@ == history.summary_of(
                        history.clips[page[k]],
                    )
            },
            Err(RepositoryError::SearchFailed) => query.sought().len() > 0 && text::utf8_len(
                query::like_pattern(query.sought()),
            ) > 50_000,
            Err(RepositoryError::MissingBlob) => exists|k: int|
                0 <= k < history.listed(query, indexed).len() && history.clips[
                    #[trigger] history.listed(query, indexed)[k]].payload_kind is Image,
            Err(_) => false,
        },
{
    if let Ok(summaries) = result {
        let page = history.listed(query, indexed);
        let shown = page.map_values(|at: int| history.summary_of(history.clips[at]));
        assert(query::summaries_of(summaries@).len() == summaries@.len());
        assert forall|k: int| 0 <= k < page.len() implies (#[trigger] summaries@[k])@
            == history.summary_of(history.clips[page[k]]) by {
            assert(query::summaries_of(summaries@)[k] == shown[k]);
        }
    }
}

/// In the pattern for a search, the three special characters stand behind a backslash, every
/// other character stands as it is, and a percent sign is put before and behind.
pub proof fn special_characters_are_escaped(c: char, rest: Seq<char>)
    ensures
        ({
            let shown = if c == '%' || c == '_' || c == '\\' {
                seq!['\\', c]
            } else {
                seq![c]
            };
            query::like_pattern(seq![c] + rest) == seq!['%'] + shown + query::like_pattern(
                rest,
            ).drop_first()
        }),
        query::like_pattern(Seq::empty()) == seq!['%', '%'],
{
    reveal_strlit("\\");
    reveal_strlit("\\\\");
    reveal_strlit("%");
    reveal_strlit("\\%");
    reveal_strlit("_");
    reveal_strlit("\\_");
    assert("\\"@ =~= seq!['\\']);
    assert("\\\\"@ =~= seq!['\\', '\\']);
    assert("%"@ =~= seq!['%']);
    assert("\\%"@ =~= seq!['\\', '%']);
    assert("_"@ =~= seq!['_']);
    assert("\\_"@ =~= seq!['\\', '_']);
    let all = seq![c] + rest;
    let one = text::replaced(all, "\\"@, "\\\\"@);
    let one_c = if c == '\\' {
        seq!['\\', '\\']
    } else {
        seq![c]
    };
    let one_rest = text::replaced(rest, "\\"@, "\\\\"@);
    lemma_replaced_joins(seq![c], rest, '\\', "\\\\"@);
    lemma_replaced_one(c, '\\', "\\\\"@);
    assert(one == one_c + one_rest);
    let two_c = if c == '%' {
        seq!['\\', '%']
    } else {
        one_c
    };
    let two_rest = text::replaced(one_rest, "%"@, "\\%"@);
    lemma_replaced_joins(one_c, one_rest, '%', "\\%"@);
    lemma_replaced_one(c, '%', "\\%"@);
    lemma_replaced_two('\\', '%', "\\%"@);
    assert(text::replaced(one, "%"@, "\\%"@) == two_c + two_rest);
    let three_c = if c == '_' {
        seq!['\\', '_']
    } else {
        two_c
    };
    let three_rest = text::replaced(two_rest, "_"@, "\\_"@);
    lemma_replaced_joins(two_c, two_rest, '_', "\\_"@);
    lemma_replaced_one(c, '_', "\\_"@);
    lemma_replaced_two('\\', '_', "\\_"@);
    lemma_replaced_pair('\\', '%', '_', "\\_"@);
    assert(text::replaced(two_c + two_rest, "_"@, "\\_"@) == three_c + three_rest);
    assert(query::like_pattern(all) == seq!['%'] + (three_c + three_rest) + seq!['%']);
    assert(query::like_pattern(all) =~= seq!['%'] + three_c + query::like_pattern(
        rest,
    ).drop_first());
    assert(query::like_pattern(Seq::empty()) =~= seq!['%', '%']);
}

/// One character is replaced in the two parts of a text alike.
proof fn lemma_replaced_joins(a: Seq<char>, b: Seq<char>, from: char, to: Seq<char>)
    ensures
        text::replaced(a + b, seq![from], to) == text::replaced(a, seq![from], to)
            + text::replaced(b, seq![from], to),
    decreases a.len(),
{
    let all = a + b;
    if a.len() == 0 {
        assert(all =~= b);
        assert(text::replaced(a, seq![from], to) + text::replaced(b, seq![from], to)
            =~= text::replaced(b, seq![from], to));
    } else {
        let rest = a.drop_first();
        assert(all.drop_first() =~= rest + b);
        assert(all.skip(1) =~= rest + b);
        assert(a.skip(1) =~= rest);
        lemma_replaced_joins(rest, b, from, to);
        assert(all.subrange(0, 1) =~= seq![a[0]]);
        assert(a.subrange(0, 1) =~= seq![a[0]]);
        if a[0] == from {
            assert(text::stands_at(all, seq![from], 0));
            assert(text::stands_at(a, seq![from], 0));
        } else {
            assert(all.subrange(0, 1)[0] != seq![from][0]);
            assert(!text::stands_at(all, seq![from], 0));
            assert(!text::stands_at(a, seq![from], 0));
        }
        assert(text::replaced(all, seq![from], to) =~= text::replaced(a, seq![from], to)
            + text::replaced(b, seq![from], to));
    }
}

proof fn lemma_replaced_one(c: char, from: char, to: Seq<char>)
    ensures
        text::replaced(seq![c], seq![from], to) == if c == from {
            to
        } else {
            seq![c]
        },
{
    let one = seq![c];
    assert(one.subrange(0, 1) =~= one);
    assert(one.skip(1) =~= Seq::empty());
    assert(one.drop_first() =~= Seq::empty());
    reveal_with_fuel(text::replaced, 2);
    let none = text::replaced(Seq::empty(), seq![from], to);
    assert(none =~= Seq::empty());
    if c == from {
        assert(text::stands_at(one, seq![from], 0));
        assert(to + Seq::empty() =~= to);
    } else {
        assert(one[0] != seq![from][0]);
        assert(!text::stands_at(one, seq![from], 0));
        assert(seq![one.first()] + Seq::empty() =~= one);
    }
}

proof fn lemma_replaced_two(c: char, from: char, to: Seq<char>)
    requires
        c != from,
    ensures
        text::replaced(seq![c, c], seq![from], to) == seq![c, c],
{
    lemma_replaced_pair(c, c, from, to);
}

proof fn lemma_replaced_pair(c: char, d: char, from: char, to: Seq<char>)
    requires
        c != from,
        d != from,
    ensures
        text::replaced(seq![c, d], seq![from], to) == seq![c, d],
{
    lemma_replaced_joins(seq![c], seq![d], from, to);
    lemma_replaced_one(c, from, to);
    lemma_replaced_one(d, from, to);
    assert(seq![c] + seq![d] =~= seq![c, d]);
}

/// What is shown of a text: its first 300 characters up to a NUL character, whether that is all,
/// and how long it is.
pub proof fn texts_are_shown_by_their_beginning(history: RepositoryView, row: ClipRowView)
    requires
        row.payload_kind is Text,
    ensures
        ({
            let shown = text::before_nul(row.content);
            let summary = history.summary_of(row);
            &&& shown.len() <= 300 ==> summary.preview == shown && !summary.is_truncated
            &&& shown.len() > 300 ==> summary.preview == shown.subrange(0, 300)
                && summary.is_truncated
            &&& summary.content_length == shown.len()
            &&& summary.image is None
            &&& history.is_showable(row)
        }),
{
    let shown = text::before_nul(row.content);
    if shown.len() > 300 {
        assert(shown.take(300) =~= shown.subrange(0, 300));
    }
}

/// What is shown of an image: its sides, and what is known of its file.
pub proof fn images_are_shown_by_their_sides(history: RepositoryView, row: ClipRowView, b: int)
    requires
        history.wf(),
        row.payload_kind is Image,
        0 <= b < history.blobs.len(),
        row.blob_hash == Some(history.blobs[b].hash),
    ensures
        ({
            let summary = history.summary_of(row);
            let file = history.blobs[b];
            &&& history.is_showable(row)
            &&& summary.preview == "Изображение "@ + text::decimal(file.width as nat) + " × "@
                + text::decimal(file.height as nat)
            &&& !summary.is_truncated
            &&& summary.image is Some
            &&& summary.image->0.mime_type == file.mime_type
            &&& summary.image->0.width == file.width
            &&& summary.image->0.height == file.height
            &&& summary.image->0.size_bytes == file.size_bytes
            &&& summary.image->0.thumbnail_data_url == file.thumbnail_data_url
        }),
{
    let hash = history.blobs[b].hash;
    sequences::lemma_is_first_index(
        history.blobs,
        |other: BlobRowView| other.hash == hash,
        b,
    );
}

/// An image that has no file cannot be shown.
pub proof fn images_need_their_file(history: RepositoryView, row: ClipRowView)
    requires
        row.payload_kind is Image,
        row.blob_hash is None || !history.has_blob(row.blob_hash->0),
    ensures
        !history.is_showable(row),
{
    if row.blob_hash is Some {
        let hash = row.blob_hash->0;
        let pred = |other: BlobRowView| other.hash == hash;
        sequences::lemma_first_index(history.blobs, pred);
        let at = history.blob_position(hash);
        if at < history.blobs.len() {
            assert(history.blobs[at].hash == hash);
        }
    }
}

/// What else is shown of a clip is as it is stored.
pub proof fn summaries_say_what_is_stored(history: RepositoryView, row: ClipRowView)
    ensures
        ({
            let summary = history.summary_of(row);
            &&& summary.id == row.id
            &&& summary.content_type == row.content_type
            &&& summary.payload_kind == row.payload_kind
            &&& summary.domain == row.domain
            &&& summary.page_title == row.page_title
            &&& summary.created_at == row.created_at
            &&& summary.last_copied_at == row.last_copied_at
            &&& summary.copy_count == row.copy_count
            &&& summary.pinned == row.pinned
        }),
{
}

/// A category is shown with a clip exactly if the two are linked.
pub proof fn linked_categories_are_shown(history: RepositoryView, row: ClipRowView, c: int)
    requires
        history.wf(),
        0 <= c < history.categories.len(),
    ensures
        history.summary_of(row).categories.contains(history.categories[c].category)
            <==> history.has_link(row.id, history.categories[c].category.id),
{
    lemma_category_order(history);
    let order = history.category_order();
    let linked = |i: int| history.has_link(row.id, history.categories[i].category.id);
    let show = |i: int| history.categories[i].category;
    let chosen = order.filter(linked);
    let shown = history.summary_of(row).categories;
    sequences::lemma_filter_members(order, linked);
    assert(shown == chosen.map_values(show));
    if linked(c) {
        assert(order.contains(c));
        assert(chosen.contains(c));
        let k = choose|k: int| 0 <= k < chosen.len() && chosen[k] == c;
        assert(shown[k] == history.categories[c].category);
    }
    if shown.contains(history.categories[c].category) {
        let k = choose|k: int|
            0 <= k < shown.len() && shown[k] == history.categories[c].category;
        assert(chosen.contains(chosen[k]));
        assert(history.categories[chosen[k]].category.id == history.categories[c].category.id);
    }
}

/// The categories of a clip are shown by their sort order, then by their names.
pub proof fn categories_are_shown_in_order(
    history: RepositoryView,
    row: ClipRowView,
    a: int,
    b: int,
)
    requires
        0 <= a < b < history.summary_of(row).categories.len(),
    ensures
        ({
            let first = history.summary_of(row).categories[a];
            let second = history.summary_of(row).categories[b];
            &&& first.sort_order <= second.sort_order
            &&& first.sort_order == second.sort_order ==> first.name == second.name
                || text::lex_before(first.name, second.name)
        }),
{
    lemma_category_order(history);
    let precedes = |i: int, j: int|
        summary::category_precedes(history.categories, i, j);
    let linked = |i: int| history.has_link(row.id, history.categories[i].category.id);
    sequences::lemma_filter_pairs(history.category_order(), linked, precedes);
    let chosen = history.category_order().filter(linked);
    assert(precedes(chosen[a], chosen[b]));
}

/// What the order of the categories is.
proof fn lemma_category_order(history: RepositoryView)
    ensures
        ranking::is_ordered(
            history.category_order(),
            |i: int, j: int|
                summary::category_precedes(history.categories, i, j),
        ),
        forall|c: int| #[trigger]
            history.category_order().contains(c) <==> 0 <= c < history.categories.len(),
{
    let rows = history.categories;
    let precedes = |i: int, j: int| summary::category_precedes(rows, i, j);
    assert forall|i: int| 0 <= i < rows.len() implies !#[trigger] precedes(i, i) by {
        text::lemma_lex_irreflexive(rows[i].category.name);
    }
    assert forall|i: int, j: int, k: int|
        0 <= i < rows.len() && 0 <= j < rows.len() && 0 <= k < rows.len() && #[trigger] precedes(
            i,
            j,
        ) && #[trigger] precedes(j, k) implies precedes(i, k) by {
        let a = rows[i].category.name;
        let b = rows[j].category.name;
        let c = rows[k].category.name;
        if text::lex_before(a, b) && text::lex_before(b, c) {
            text::lemma_lex_transitive(a, b, c);
        }
    }
    assert forall|i: int, j: int|
        0 <= i < rows.len() && 0 <= j < rows.len() && i != j implies (#[trigger] precedes(i, j)
        || precedes(j, i)) by {
        text::lemma_lex_total(rows[i].category.name, rows[j].category.name);
    }
    ranking::lemma_ranking(rows.len(), precedes);
    let order = history.category_order();
    assert forall|c: int| #[trigger] order.contains(c) <==> 0 <= c < rows.len() by {
        assert(order.to_set().contains(c) <==> 0 <= c < rows.len());
    }
}

/// What follows a NUL character in a text is not seen; and a search with a NUL character finds the
/// texts that end with what stands before it.
pub proof fn a_nul_ends_what_is_seen(
    words: Seq<char>,
    head: Seq<char>,
    tail: Seq<char>,
    sought: Seq<char>,
    more: Seq<char>,
)
    requires
        text::lowered(words) == head.push('\0') + tail || text::lowered(words) == head,
        !head.contains('\0'),
        !sought.contains('\0'),
    ensures
        query::is_like(words, sought) <==> text::contains_text(head, sought),
        query::is_like(words, sought.push('\0') + more) <==> exists|start: Seq<char>|
            #[trigger] (start + sought) == head,
{
    crate::laws::words::a_nul_ends_a_text(head, tail);
    crate::laws::words::a_nul_ends_a_text(sought, more);
    let cut = sought.push('\0') + more;
    assert(cut.len() > sought.len());
    if text::ends_with_text(head, sought) {
        let start = head.take(head.len() - sought.len());
        assert(start + sought =~= head);
    }
    if exists|start: Seq<char>| #[trigger] (start + sought) == head {
        let start = choose|start: Seq<char>| #[trigger] (start + sought) == head;
        assert(head.skip(head.len() - sought.len()) =~= sought);
    }
}

/// A search whose pattern takes more than fifty thousand bytes fails exactly if some clip that
/// passes the filters is not found by the text index, so that it would have to be compared.
pub proof fn long_searches_fail(
    history: RepositoryView,
    query: QueryView,
    indexed: spec_fn(int) -> bool,
    result: Result<Vec<ClipSummary>, RepositoryError>,
)
    requires
        query::clips_listed(history, query, indexed, result),
        query.sought().len() > 0,
        text::utf8_len(query::like_pattern(query.sought())) > 50_000,
    ensures
        result == Err::<Vec<ClipSummary>, RepositoryError>(RepositoryError::SearchFailed)
            <==> exists|at: int|
            0 <= at < history.clips.len() && {
                let row = #[trigger] history.clips[at];
                &&& query.content_type is Some ==> query.content_type == Some(row.content_type)
                &&& query.content_type is Some && query.payload_kind is None
                    ==> row.payload_kind is Text
                &&& query.payload_kind is Some ==> query.payload_kind == Some(row.payload_kind)
                &&& query.domain is Some ==> query.domain == row.domain
                &&& query.category_id is Some ==> history.has_link(row.id, query.category_id->0)
                &&& query.expression().len() == 0 || !indexed(at)
            },
{
    if history.is_too_long(query, indexed) {
        let at = choose|at: int|
            0 <= at < history.clips.len() && #[trigger] history.is_compared(query, at, indexed);
        assert(history.clips[at] == history.clips[at]);
    }
    if exists|at: int|
        0 <= at < history.clips.len() && {
            let row = #[trigger] history.clips[at];
            &&& query.content_type is Some ==> query.content_type == Some(row.content_type)
            &&& query.content_type is Some && query.payload_kind is None ==> row.payload_kind is Text
            &&& query.payload_kind is Some ==> query.payload_kind == Some(row.payload_kind)
            &&& query.domain is Some ==> query.domain == row.domain
            &&& query.category_id is Some ==> history.has_link(row.id, query.category_id->0)
            &&& query.expression().len() == 0 || !indexed(at)
        } {
        let at = choose|at: int|
            0 <= at < history.clips.len() && {
                let row = #[trigger] history.clips[at];
                &&& query.content_type is Some ==> query.content_type == Some(row.content_type)
                &&& query.content_type is Some && query.payload_kind is None
                    ==> row.payload_kind is Text
                &&& query.payload_kind is Some ==> query.payload_kind == Some(row.payload_kind)
                &&& query.domain is Some ==> query.domain == row.domain
                &&& query.category_id is Some ==> history.has_link(row.id, query.category_id->0)
                &&& query.expression().len() == 0 || !indexed(at)
            };
        assert(history.is_compared(query, at, indexed));
    }
}

} // verus!
