//! Listing clips: searching, filtering, ordering and paging.

use crate::domain::{ClipQuery, ClipSummary, ContentType, PayloadKind};
use crate::persistence::rows;
use crate::persistence::rows::{CategoryRowView, ClipRow, ClipRowView};
use crate::persistence::search;
use crate::persistence::search::{format_fts_query, search_documents};
use crate::persistence::summary;
use crate::persistence::summary::SummaryView;
use crate::persistence::{Repository, RepositoryError, RepositoryView};
use crate::ranking;
use crate::ranking::{rank, Ranked};
use crate::sequences;
use crate::text;
use crate::text::{
    byte_len, char_len, ends_with, has_text, replace_text, same_text, to_lower, trim, until_nul,
};
use vstd::prelude::*;

verus! {

/// How many clips are listed at most, unless the query says.
pub const DEFAULT_LIMIT: u32 = 100;

/// How many clips are listed at most, whatever the query says.
pub const MAX_LIMIT: u32 = 200;

/// The shortest search that the text index can answer, in characters.
pub const INDEXED_SEARCH_CHARS: usize = 3;

/// The longest pattern that texts are compared with, in bytes.
pub const MAX_PATTERN_BYTES: usize = 50_000;

impl Repository {
    /// How many of the latest clips a short search looks through.
    pub const SHORT_SEARCH_FALLBACK_LIMIT: usize = 5000;
}

#[verifier::ext_equal]
pub struct QueryView {
    pub search: Option<Seq<char>>,
    pub content_type: Option<ContentType>,
    pub payload_kind: Option<PayloadKind>,
    pub domain: Option<Seq<char>>,
    pub category_id: Option<Seq<char>>,
    pub limit: Option<u32>,
    pub offset: Option<u32>,
}

impl View for ClipQuery {
    type V = QueryView;

    open spec fn view(&self) -> QueryView {
        QueryView {
            search: text::text_of(self.search),
            content_type: self.content_type,
            payload_kind: self.payload_kind,
            domain: text::text_of(self.domain),
            category_id: text::text_of(self.category_id),
            limit: self.limit,
            offset: self.offset,
        }
    }
}

/// Contains the sought text, without regard to case; what follows a NUL character is not seen.
/// Where the sought text has a NUL character, the text must end with what stands before it.
pub open spec fn is_like(text: Seq<char>, sought: Seq<char>) -> bool {
    let seen = text::before_nul(text::lowered(text));
    let asked = text::before_nul(sought);
    if asked == sought {
        text::contains_text(seen, sought)
    } else {
        text::ends_with_text(seen, asked)
    }
}

/// The pattern that finds a text anywhere.
pub open spec fn like_pattern(sought: Seq<char>) -> Seq<char> {
    let escaped = text::replaced(
        text::replaced(text::replaced(sought, "\\"@, "\\\\"@), "%"@, "\\%"@),
        "_"@,
        "\\_"@,
    );
    seq!['%'] + escaped + seq!['%']
}

fn pattern_for(sought: &str) -> (pattern: String)
    ensures
        pattern@ == like_pattern(sought@),
{
    proof {
        reveal_strlit("\\");
        reveal_strlit("%");
        reveal_strlit("_");
    }
    let slashes = replace_text(sought, "\\", "\\\\");
    let percents = replace_text(slashes.as_str(), "%", "\\%");
    let escaped = replace_text(percents.as_str(), "_", "\\_");
    let mut pattern = String::new();
    pattern.push('%');
    pattern.push_str(escaped.as_str());
    pattern.push('%');
    assert(pattern@ =~= like_pattern(sought@));
    pattern
}

/// The text, or nothing.
pub open spec fn or_empty(text: Option<Seq<char>>) -> Seq<char> {
    match text {
        Some(text) => text,
        None => Seq::empty(),
    }
}

impl QueryView {
    /// The sought text: trimmed, in lower case.
    pub open spec fn sought(self) -> Seq<char> {
        text::lowered(text::trimmed(or_empty(self.search)))
    }

    /// The expression for the text index.
    pub open spec fn expression(self) -> Seq<char> {
        search::fts_expression(self.sought())
    }

    /// A search that the text index cannot answer.
    pub open spec fn is_short(self) -> bool {
        self.sought().len() > 0 && (self.sought().len() < INDEXED_SEARCH_CHARS
            || self.expression().len() == 0)
    }

    /// The kind of payload asked for; a content type is asked of text.
    pub open spec fn wanted_kind(self) -> Option<PayloadKind> {
        if self.payload_kind is Some {
            self.payload_kind
        } else if self.content_type is Some {
            Some(PayloadKind::Text)
        } else {
            None
        }
    }

    pub open spec fn page_limit(self) -> int {
        match self.limit {
            None => DEFAULT_LIMIT as int,
            Some(limit) => if limit < 1 {
                1
            } else if limit > MAX_LIMIT {
                MAX_LIMIT as int
            } else {
                limit as int
            },
        }
    }

    pub open spec fn page_offset(self) -> int {
        match self.offset {
            Some(offset) => offset as int,
            None => 0,
        }
    }

    /// The page of the positions found.
    pub open spec fn page(self, found: Seq<int>) -> Seq<int> {
        let from = if self.page_offset() < found.len() {
            self.page_offset()
        } else {
            found.len() as int
        };
        let to = if from + self.page_limit() < found.len() {
            from + self.page_limit()
        } else {
            found.len() as int
        };
        found.subrange(from, to)
    }

    /// What the query asks apart from the search and the category.
    pub open spec fn admits(self, row: ClipRowView) -> bool {
        &&& self.content_type is Some ==> self.content_type == Some(row.content_type)
        &&& self.domain is Some ==> self.domain == row.domain
        &&& self.wanted_kind() is Some ==> self.wanted_kind() == Some(row.payload_kind)
    }

    /// The search is for a text that the name of a category contains.
    pub open spec fn names(self, category: CategoryRowView) -> bool {
        self.sought().len() > 0 && is_like(category.category.name, self.sought())
    }
}

/// The one copied last comes first; of two copied at the same time that with the larger sort
/// key, then the one inserted first.
pub open spec fn clip_precedes(rows: Seq<ClipRowView>, i: int, j: int) -> bool {
    let a = rows[i];
    let b = rows[j];
    a.last_copied_at > b.last_copied_at || (a.last_copied_at == b.last_copied_at && (a.sort_key
        > b.sort_key || (a.sort_key == b.sort_key && i < j)))
}

/// All positions of the clips, the latest first.
pub open spec fn is_clip_ranking(rows: Seq<ClipRowView>, order: Seq<int>) -> bool {
    ranking::is_ranking(rows.len(), |i: int, j: int| clip_precedes(rows, i, j), order)
}

struct ClipsByRecency<'a> {
    rows: &'a Vec<ClipRow>,
}

impl<'a> Ranked for ClipsByRecency<'a> {
    closed spec fn count(&self) -> nat {
        self.rows@.len()
    }

    closed spec fn precedes(&self, i: int, j: int) -> bool {
        clip_precedes(rows::clip_views(self.rows@), i, j)
    }

    proof fn order_is_strict(&self) {
    }

    fn comes_before(&self, i: usize, j: usize) -> (answer: bool) {
        let a = &self.rows[i];
        let b = &self.rows[j];
        proof {
            assert(rows::clip_views(self.rows@)[i as int] == a@);
            assert(rows::clip_views(self.rows@)[j as int] == b@);
        }
        a.last_copied_at > b.last_copied_at || (a.last_copied_at == b.last_copied_at && (a.sort_key
            > b.sort_key || (a.sort_key == b.sort_key && i < j)))
    }
}

impl RepositoryView {
    /// The positions of all clips, the latest first.
    pub open spec fn clip_order(self) -> Seq<int> {
        ranking::ranking(self.clips.len(), |i: int, j: int| clip_precedes(self.clips, i, j))
    }

    /// The positions of the latest clips, through which a short search looks.
    pub open spec fn latest(self) -> Seq<int> {
        let order = self.clip_order();
        if order.len() <= Repository::SHORT_SEARCH_FALLBACK_LIMIT {
            order
        } else {
            order.take(Repository::SHORT_SEARCH_FALLBACK_LIMIT as int)
        }
    }

    /// The search finds the clip at a position by its text, its title or its domain. `indexed`
    /// tells which clips the text index finds.
    pub open spec fn is_found(self, query: QueryView, at: int, indexed: spec_fn(int) -> bool) -> bool {
        let row = self.clips[at];
        ||| query.sought().len() == 0
        ||| query.expression().len() > 0 && indexed(at)
        ||| query.is_short() && self.latest().contains(at) && (is_like(row.content, query.sought())
            || is_like(or_empty(row.page_title), query.sought()))
        ||| is_like(or_empty(row.domain), query.sought())
    }

    /// The clip at a position is in the category at a position.
    pub open spec fn is_in(self, at: int, category: int) -> bool {
        self.has_link(self.clips[at].id, self.categories[category].category.id)
    }

    /// The query asks for the clip at a position. A category that is asked for and a category
    /// that the search names must be the same one.
    pub open spec fn is_asked_for(
        self,
        query: QueryView,
        at: int,
        indexed: spec_fn(int) -> bool,
    ) -> bool {
        &&& query.admits(self.clips[at])
        &&& match query.category_id {
            Some(id) => self.has_link(self.clips[at].id, id) && (self.is_found(query, at, indexed)
                || exists|c: int|
                0 <= c < self.categories.len() && self.categories[c].category.id == id
                    && #[trigger] query.names(self.categories[c])),
            None => self.is_found(query, at, indexed) || exists|c: int|
                0 <= c < self.categories.len() && #[trigger] self.is_in(at, c) && query.names(
                    self.categories[c],
                ),
        }
    }

    /// The sought text is compared with the clip at a position, or with its categories: the clip
    /// is as the query asks otherwise, and the text index does not find it.
    pub open spec fn is_compared(
        self,
        query: QueryView,
        at: int,
        indexed: spec_fn(int) -> bool,
    ) -> bool {
        &&& query.sought().len() > 0
        &&& query.admits(self.clips[at])
        &&& query.category_id is Some ==> self.has_link(self.clips[at].id, query.category_id->0)
        &&& !(query.expression().len() > 0 && indexed(at))
    }

    /// The sought text is too long for a clip to be compared with it.
    pub open spec fn is_too_long(self, query: QueryView, indexed: spec_fn(int) -> bool) -> bool {
        &&& text::utf8_len(like_pattern(query.sought())) > MAX_PATTERN_BYTES
        &&& exists|at: int|
            0 <= at < self.clips.len() && #[trigger] self.is_compared(query, at, indexed)
    }

    /// The positions of the listed clips, in order.
    pub open spec fn listed(self, query: QueryView, indexed: spec_fn(int) -> bool) -> Seq<int> {
        query.page(self.clip_order().filter(|at: int| self.is_asked_for(query, at, indexed)))
    }

    /// The text index can answer the query: it takes every clip and reads the expression.
    pub open spec fn index_answers(self, query: QueryView) -> bool {
        &&& self.clips.len() < i64::MAX
        &&& search::index_answers(
            self.clips.map_values(|row: ClipRowView| row.content),
            self.clips.map_values(|row: ClipRowView| or_empty(row.page_title)),
            query.expression(),
        )
    }

    /// The clips that the text index finds.
    pub open spec fn indexed(self, query: QueryView) -> spec_fn(int) -> bool {
        |at: int|
            search::fts5_accepts(
                self.clips[at].content,
                or_empty(self.clips[at].page_title),
                query.expression(),
            )
    }
}

/// Nothing sought is nothing to ask the index for.
pub proof fn lemma_no_search_has_no_expression(query: QueryView)
    requires
        query.search is None,
    ensures
        query.sought().len() == 0,
        query.expression().len() == 0,
{
    let nothing = Seq::<char>::empty();
    assert(text::trimmed(nothing) =~= nothing);
    assert(text::lowered(nothing) =~= nothing);
}

pub open spec fn summaries_of(summaries: Seq<ClipSummary>) -> Seq<SummaryView> {
    summaries.map_values(|summary: ClipSummary| summary@)
}

/// What listing clips at these positions returns.
pub open spec fn summaries_listed(
    repository: RepositoryView,
    positions: Seq<int>,
    result: Result<Vec<ClipSummary>, RepositoryError>,
) -> bool {
    if forall|k: int|
        0 <= k < positions.len() ==> repository.is_showable(
            repository.clips[#[trigger] positions[k]],
        ) {
        result matches Ok(summaries) && summaries_of(summaries@) == positions.map_values(
            |at: int| repository.summary_of(repository.clips[at]),
        )
    } else {
        result == Err::<Vec<ClipSummary>, RepositoryError>(RepositoryError::MissingBlob)
    }
}

/// What listing the clips that a query asks for returns, given which clips the text index finds.
pub open spec fn clips_listed(
    repository: RepositoryView,
    query: QueryView,
    indexed: spec_fn(int) -> bool,
    result: Result<Vec<ClipSummary>, RepositoryError>,
) -> bool {
    if repository.is_too_long(query, indexed) {
        result == Err::<Vec<ClipSummary>, RepositoryError>(RepositoryError::SearchFailed)
    } else {
        summaries_listed(repository, repository.listed(query, indexed), result)
    }
}

fn matches_text(text: &str, sought: &str) -> (answer: bool)
    ensures
        answer == is_like(text@, sought@),
{
    let seen = until_nul(to_lower(text).as_str());
    let asked = until_nul(sought);
    if same_text(asked.as_str(), sought) {
        has_text(seen.as_str(), sought)
    } else {
        ends_with(seen.as_str(), asked.as_str())
    }
}

fn matches_optional(text: &Option<String>, sought: &str) -> (answer: bool)
    ensures
        answer == is_like(or_empty(text::text_of(*text)), sought@),
{
    match text {
        Some(text) => matches_text(text.as_str(), sought),
        None => {
            let empty = String::new();
            proof {
                assert(empty@ =~= Seq::empty());
            }
            matches_text(empty.as_str(), sought)
        },
    }
}

/// The sought text and its expression.
struct Search {
    sought: String,
    expression: String,
}

impl Search {
    spec fn is_for(&self, query: QueryView) -> bool {
        self.sought@ == query.sought() && self.expression@ == query.expression()
    }
}

fn search_of(query: &ClipQuery) -> (search: Search)
    ensures
        search.is_for(query@),
{
    let given = match &query.search {
        Some(search) => search.clone(),
        None => String::new(),
    };
    proof {
        if query.search is None {
            assert(given@ =~= or_empty(query@.search));
        }
    }
    let sought = to_lower(trim(given.as_str()).as_str());
    let expression = format_fts_query(sought.as_str());
    Search { sought, expression }
}

fn admits_row(query: &ClipQuery, row: &ClipRow) -> (answer: bool)
    ensures
        answer == query@.admits(row@),
{
    let type_fits = match query.content_type {
        Some(content_type) => content_type == row.content_type,
        None => true,
    };
    let domain_fits = match &query.domain {
        Some(domain) => match &row.domain {
            Some(found) => same_text(found.as_str(), domain.as_str()),
            None => false,
        },
        None => true,
    };
    let kind_fits = match query.payload_kind {
        Some(kind) => kind == row.payload_kind,
        None => query.content_type.is_none() || row.payload_kind == PayloadKind::Text,
    };
    type_fits && domain_fits && kind_fits
}

impl Repository {
    fn recency_order(&self) -> (order: Vec<usize>)
        ensures
            ranking::positions(order@) == self@.clip_order(),
            is_clip_ranking(self@.clips, self@.clip_order()),
            order@.len() == self@.clips.len(),
            forall|k: int| 0 <= k < order@.len() ==> #[trigger] order@[k] < self@.clips.len(),
    {
        let ranked = ClipsByRecency { rows: &self.clips };
        let order = rank(&ranked, self.clips.len());
        proof {
            let a = |i: int, j: int| ranked.precedes(i, j);
            let b = |i: int, j: int| clip_precedes(self@.clips, i, j);
            assert(a =~= b);
        }
        order
    }

    /// Whether the clip is found. `is_latest` tells whether it is among the latest.
    fn finds(
        &self,
        query: &ClipQuery,
        search: &Search,
        at: usize,
        is_latest: bool,
        hit: bool,
        Ghost(indexed): Ghost<spec_fn(int) -> bool>,
    ) -> (answer: bool)
        requires
            at < self@.clips.len(),
            search.is_for(query@),
            is_latest == self@.latest().contains(at as int),
            query@.expression().len() > 0 ==> hit == indexed(at as int),
        ensures
            answer == self@.is_found(query@, at as int, indexed),
    {
        let row = &self.clips[at];
        proof {
            assert(self@.clips[at as int] == row@);
        }
        let length = char_len(search.sought.as_str());
        if length == 0 {
            return true;
        }
        let has_expression = char_len(search.expression.as_str()) > 0;
        if has_expression && hit {
            return true;
        }
        let is_short = length < INDEXED_SEARCH_CHARS || !has_expression;
        if is_short && is_latest && (matches_text(row.content.as_str(), search.sought.as_str())
            || matches_optional(&row.page_title, search.sought.as_str())) {
            return true;
        }
        matches_optional(&row.domain, search.sought.as_str())
    }

    fn category_is_named(&self, query: &ClipQuery, search: &Search, category: usize) -> (answer: bool)
        requires
            category < self@.categories.len(),
            search.is_for(query@),
        ensures
            answer == query@.names(self@.categories[category as int]),
    {
        proof {
            assert(self@.categories[category as int] == self.categories@[category as int]@);
        }
        char_len(search.sought.as_str()) > 0 && matches_text(
            self.categories[category].category.name.as_str(),
            search.sought.as_str(),
        )
    }

    /// Whether the query asks for the clip.
    fn asks_for(
        &self,
        query: &ClipQuery,
        search: &Search,
        at: usize,
        is_latest: bool,
        hit: bool,
        Ghost(indexed): Ghost<spec_fn(int) -> bool>,
    ) -> (answer: bool)
        requires
            self@.wf(),
            at < self@.clips.len(),
            search.is_for(query@),
            is_latest == self@.latest().contains(at as int),
            query@.expression().len() > 0 ==> hit == indexed(at as int),
        ensures
            answer == self@.is_asked_for(query@, at as int, indexed),
    {
        let row = &self.clips[at];
        proof {
            assert(self@.clips[at as int] == row@);
        }
        if !admits_row(query, row) {
            return false;
        }
        match &query.category_id {
            Some(id) => {
                if !self.is_linked(row.id.as_str(), id.as_str()) {
                    return false;
                }
                if self.finds(query, search, at, is_latest, hit, Ghost(indexed)) {
                    return true;
                }
                let c = self.find_category(id.as_str());
                let named = c < self.categories.len() && self.category_is_named(query, search, c);
                proof {
                    if exists|k: int|
                        0 <= k < self@.categories.len() && self@.categories[k].category.id == id@
                            && #[trigger] query@.names(self@.categories[k]) {
                        let k = choose|k: int|
                            0 <= k < self@.categories.len() && self@.categories[k].category.id
                                == id@ && #[trigger] query@.names(self@.categories[k]);
                        assert(self@.has_category(id@));
                        if c < k {
                            assert(self@.categories[c as int].category.id
                                != self@.categories[k].category.id);
                        } else if k < c {
                            assert(self@.categories[k].category.id
                                != self@.categories[c as int].category.id);
                        }
                    }
                }
                named
            },
            None => {
                if self.finds(query, search, at, is_latest, hit, Ghost(indexed)) {
                    return true;
                }
                let mut c: usize = 0;
                while c < self.categories.len()
                    invariant
                        c <= self.categories@.len(),
                        self@.categories.len() == self.categories@.len(),
                        at < self@.clips.len(),
                        row@ == self@.clips[at as int],
                        search.is_for(query@),
                        query@.category_id is None,
                        query@.admits(self@.clips[at as int]),
                        !self@.is_found(query@, at as int, indexed),
                        forall|k: int|
                            0 <= k < c ==> !(#[trigger] self@.is_in(at as int, k) && query@.names(
                                self@.categories[k],
                            )),
                    decreases self.categories@.len() - c,
                {
                    proof {
                        assert(self@.categories[c as int] == self.categories@[c as int]@);
                    }
                    if self.is_linked(
                        row.id.as_str(),
                        self.categories[c].category.id.as_str(),
                    ) && self.category_is_named(query, search, c) {
                        proof {
                            assert(self@.is_in(at as int, c as int));
                        }
                        return true;
                    }
                    c += 1;
                }
                false
            },
        }
    }

    /// Whether the sought text is too long for the clips it is compared with.
    fn is_too_long(
        &self,
        query: &ClipQuery,
        search: &Search,
        hits: &Vec<bool>,
        Ghost(indexed): Ghost<spec_fn(int) -> bool>,
    ) -> (answer: bool)
        requires
            search.is_for(query@),
            hits@.len() == self@.clips.len(),
            forall|i: int|
                0 <= i < hits@.len() && query@.expression().len() > 0 ==> #[trigger] hits@[i]
                    == indexed(i),
        ensures
            answer == self@.is_too_long(query@, indexed),
    {
        let pattern = pattern_for(search.sought.as_str());
        if byte_len(pattern.as_str()) <= MAX_PATTERN_BYTES || char_len(search.sought.as_str())
            == 0 {
            return false;
        }
        let has_expression = char_len(search.expression.as_str()) > 0;
        let mut at: usize = 0;
        while at < self.clips.len()
            invariant
                at <= self.clips@.len(),
                search.is_for(query@),
                query@.sought().len() > 0,
                text::utf8_len(like_pattern(query@.sought())) > MAX_PATTERN_BYTES,
                has_expression == (query@.expression().len() > 0),
                hits@.len() == self@.clips.len(),
                forall|i: int|
                    0 <= i < hits@.len() && query@.expression().len() > 0 ==> #[trigger] hits@[i]
                        == indexed(i),
                forall|k: int| 0 <= k < at ==> !#[trigger] self@.is_compared(query@, k, indexed),
            decreases self.clips@.len() - at,
        {
            let row = &self.clips[at];
            proof {
                assert(self@.clips[at as int] == row@);
            }
            let linked = match &query.category_id {
                Some(id) => self.is_linked(row.id.as_str(), id.as_str()),
                None => true,
            };
            if admits_row(query, row) && linked && !(has_expression && hits[at]) {
                assert(self@.is_compared(query@, at as int, indexed));
                return true;
            }
            assert(!self@.is_compared(query@, at as int, indexed));
            at += 1;
        }
        false
    }

    /// The positions of the listed clips.
    fn listed_positions(
        &self,
        query: &ClipQuery,
        search: &Search,
        hits: &Vec<bool>,
        Ghost(indexed): Ghost<spec_fn(int) -> bool>,
    ) -> (page: Vec<usize>)
        requires
            self@.wf(),
            search.is_for(query@),
            hits@.len() == self@.clips.len(),
            forall|i: int|
                0 <= i < hits@.len() && query@.expression().len() > 0 ==> #[trigger] hits@[i]
                    == indexed(i),
        ensures
            ranking::positions(page@) == self@.listed(query@, indexed),
            forall|k: int| 0 <= k < page@.len() ==> #[trigger] page@[k] < self@.clips.len(),
    {
        let order = self.recency_order();
        let ghost all = ranking::positions(order@);
        let ghost asked = |at: int| self@.is_asked_for(query@, at, indexed);
        let mut found: Vec<usize> = Vec::new();
        let mut k: usize = 0;
        proof {
            reveal(Seq::filter);
            assert(ranking::positions(found@) =~= all.take(0).filter(asked));
        }
        while k < order.len()
            invariant
                self@.wf(),
                search.is_for(query@),
                k <= order@.len(),
                all == ranking::positions(order@),
                all == self@.clip_order(),
                is_clip_ranking(self@.clips, all),
                order@.len() == self@.clips.len(),
                hits@.len() == self@.clips.len(),
                forall|m: int| 0 <= m < order@.len() ==> #[trigger] order@[m] < self@.clips.len(),
                forall|i: int|
                    0 <= i < hits@.len() && query@.expression().len() > 0 ==> #[trigger] hits@[i]
                        == indexed(i),
                asked == (|at: int| self@.is_asked_for(query@, at, indexed)),
                ranking::positions(found@) == all.take(k as int).filter(asked),
                forall|m: int| 0 <= m < found@.len() ==> #[trigger] found@[m] < self@.clips.len(),
            decreases order@.len() - k,
        {
            let at = order[k];
            let is_latest = k < Repository::SHORT_SEARCH_FALLBACK_LIMIT;
            proof {
                sequences::lemma_filter_take(all, asked, k as int);
                lemma_rank_tells_latest(self@, k as int);
            }
            if self.asks_for(query, search, at, is_latest, hits[at], Ghost(indexed)) {
                let ghost before = found@;
                found.push(at);
                proof {
                    assert(ranking::positions(found@) =~= ranking::positions(before).push(
                        at as int,
                    ));
                }
            }
            k += 1;
        }
        proof {
            assert(all.take(k as int) =~= all);
        }
        let limit: usize = match query.limit {
            None => DEFAULT_LIMIT as usize,
            Some(limit) => if limit < 1 {
                1
            } else if limit > MAX_LIMIT {
                MAX_LIMIT as usize
            } else {
                limit as usize
            },
        };
        let offset: usize = match query.offset {
            Some(offset) => offset as usize,
            None => 0,
        };
        let from: usize = if offset < found.len() {
            offset
        } else {
            found.len()
        };
        let to: usize = if limit < found.len() - from {
            from + limit
        } else {
            found.len()
        };
        let mut page: Vec<usize> = Vec::new();
        let mut i: usize = from;
        while i < to
            invariant
                from <= i <= to <= found@.len(),
                page@ == found@.subrange(from as int, i as int),
                forall|m: int| 0 <= m < found@.len() ==> #[trigger] found@[m] < self@.clips.len(),
            decreases to - i,
        {
            page.push(found[i]);
            i += 1;
        }
        proof {
            assert(ranking::positions(page@) =~= ranking::positions(found@).subrange(
                from as int,
                to as int,
            ));
        }
        page
    }

    /// Shows the clips at these positions.
    fn load_summaries(&self, page: &Vec<usize>) -> (result: Result<
        Vec<ClipSummary>,
        RepositoryError,
    >)
        requires
            forall|k: int| 0 <= k < page@.len() ==> #[trigger] page@[k] < self@.clips.len(),
        ensures
            summaries_listed(self@, ranking::positions(page@), result),
    {
        let ghost positions = ranking::positions(page@);
        let ghost show = |at: int| self@.summary_of(self@.clips[at]);
        let mut summaries: Vec<ClipSummary> = Vec::new();
        let mut k: usize = 0;
        while k < page.len()
            invariant
                k <= page@.len(),
                positions == ranking::positions(page@),
                show == (|at: int| self@.summary_of(self@.clips[at])),
                forall|m: int| 0 <= m < page@.len() ==> #[trigger] page@[m] < self@.clips.len(),
                summaries_of(summaries@) =~= positions.map_values(show).take(k as int),
                forall|m: int|
                    0 <= m < k ==> self@.is_showable(self@.clips[#[trigger] positions[m]]),
            decreases page@.len() - k,
        {
            match self.load_clip_summary(page[k]) {
                Ok(summary) => {
                    let ghost before = summaries@;
                    summaries.push(summary);
                    proof {
                        assert(summaries_of(summaries@) =~= summaries_of(before).push(summary@));
                        assert(positions.map_values(show)[k as int] == summary@);
                    }
                },
                Err(error) => {
                    proof {
                        assert(!self@.is_showable(self@.clips[positions[k as int]]));
                    }
                    return Err(error);
                },
            }
            k += 1;
        }
        proof {
            assert(positions.map_values(show).take(k as int) =~= positions.map_values(show));
        }
        Ok(summaries)
    }

    /// Lists clips, given which clips the text index finds.
    pub fn list_clips_with(&self, query: &ClipQuery, hits: &Vec<bool>) -> (result: Result<
        Vec<ClipSummary>,
        RepositoryError,
    >)
        requires
            self@.wf(),
            hits@.len() == self@.clips.len(),
        ensures
            clips_listed(self@, query@, |at: int| hits@[at], result),
    {
        let search = search_of(query);
        if self.is_too_long(query, &search, hits, Ghost(|at: int| hits@[at])) {
            return Err(RepositoryError::SearchFailed);
        }
        let page = self.listed_positions(query, &search, hits, Ghost(|at: int| hits@[at]));
        self.load_summaries(&page)
    }

    /// Lists the clips that a query asks for, the latest first. A search fails where the text
    /// index cannot answer it, or where the sought text is too long for a clip to be compared
    /// with it.
    pub fn list_clips(&self, query: &ClipQuery) -> (result: Result<
        Vec<ClipSummary>,
        RepositoryError,
    >)
        requires
            self@.wf(),
        ensures
            if query@.expression().len() == 0 || self@.index_answers(query@) {
                clips_listed(self@, query@, self@.indexed(query@), result)
            } else {
                result == Err::<Vec<ClipSummary>, RepositoryError>(RepositoryError::SearchFailed)
            },
    {
        let search = search_of(query);
        let ghost indexed = self@.indexed(query@);
        let hits = if char_len(search.expression.as_str()) == 0 {
            self.no_hits()
        } else {
            proof {
                search::lemma_expression_is_quoted(query@.sought());
            }
            match self.index_hits(search.expression.as_str(), Ghost(query@)) {
                Ok(hits) => hits,
                Err(error) => return Err(error),
            }
        };
        if self.is_too_long(query, &search, &hits, Ghost(indexed)) {
            return Err(RepositoryError::SearchFailed);
        }
        let page = self.listed_positions(query, &search, &hits, Ghost(indexed));
        self.load_summaries(&page)
    }

    fn no_hits(&self) -> (hits: Vec<bool>)
        ensures
            hits@.len() == self@.clips.len(),
    {
        let mut hits: Vec<bool> = Vec::new();
        let mut i: usize = 0;
        while i < self.clips.len()
            invariant
                i <= self.clips@.len(),
                hits@.len() == i,
            decreases self.clips@.len() - i,
        {
            hits.push(false);
            i += 1;
        }
        hits
    }

    /// Asks the text index for each clip.
    fn index_hits(&self, expression: &str, query: Ghost<QueryView>) -> (result: Result<
        Vec<bool>,
        RepositoryError,
    >)
        requires
            expression@ == query@.expression(),
            expression@.len() > 0 ==> expression@[0] != '*',
        ensures
            result is Ok == self@.index_answers(query@),
            match result {
                Ok(hits) => hits@.len() == self@.clips.len() && forall|i: int|
                    0 <= i < hits@.len() ==> #[trigger] hits@[i] == search::fts5_accepts(
                        self@.clips[i].content,
                        or_empty(self@.clips[i].page_title),
                        expression@,
                    ),
                Err(error) => error == RepositoryError::SearchFailed,
            },
    {
        let mut contents: Vec<String> = Vec::new();
        let mut titles: Vec<String> = Vec::new();
        let mut i: usize = 0;
        while i < self.clips.len()
            invariant
                i <= self.clips@.len(),
                contents@.len() == i,
                titles@.len() == i,
                forall|k: int| 0 <= k < i ==> (#[trigger] contents@[k])@ == self@.clips[k].content,
                forall|k: int|
                    0 <= k < i ==> (#[trigger] titles@[k])@ == or_empty(self@.clips[k].page_title),
            decreases self.clips@.len() - i,
        {
            proof {
                assert(self@.clips[i as int] == self.clips@[i as int]@);
            }
            contents.push(self.clips[i].content.clone());
            let title = match &self.clips[i].page_title {
                Some(title) => title.clone(),
                None => String::new(),
            };
            proof {
                assert(title@ =~= or_empty(self@.clips[i as int].page_title));
            }
            titles.push(title);
            i += 1;
        }
        if contents.len() as u64 >= i64::MAX as u64 {
            return Err(RepositoryError::SearchFailed);
        }
        proof {
            assert(text::texts_of(contents@) =~= self@.clips.map_values(
                |row: ClipRowView| row.content,
            ));
            assert(text::texts_of(titles@) =~= self@.clips.map_values(
                |row: ClipRowView| or_empty(row.page_title),
            ));
        }
        search_documents(&contents, &titles, expression)
    }
}

/// The clip at a rank is among the latest exactly if the rank is small enough.
proof fn lemma_rank_tells_latest(repository: RepositoryView, at_rank: int)
    requires
        0 <= at_rank < repository.clip_order().len(),
        is_clip_ranking(repository.clips, repository.clip_order()),
    ensures
        repository.latest().contains(repository.clip_order()[at_rank]) <==> at_rank
            < Repository::SHORT_SEARCH_FALLBACK_LIMIT,
{
    let order = repository.clip_order();
    let latest = repository.latest();
    if at_rank < latest.len() {
        assert(latest[at_rank] == order[at_rank]);
    }
    if latest.contains(order[at_rank]) {
        let k = choose|k: int| 0 <= k < latest.len() && latest[k] == order[at_rank];
        assert(order[k] == order[at_rank]);
        if k < at_rank {
            assert(clip_precedes(repository.clips, order[k], order[at_rank]));
        } else if at_rank < k {
            assert(clip_precedes(repository.clips, order[at_rank], order[k]));
        }
    }
}

} // verus!
