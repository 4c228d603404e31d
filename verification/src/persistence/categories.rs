//! User categories, and which clips belong to them.

use crate::domain::{Category, CategoryView};
use crate::identity;
use crate::identity::{random_uuid, uuid_to_text};
use crate::persistence::rows;
use crate::persistence::rows::{CategoryRow, CategoryRowView, LinkRow, LinkRowView};
use crate::persistence::summary;
use crate::persistence::{Repository, RepositoryError, RepositoryView};
use crate::ranking;
use crate::ranking::{rank, Ranked};
use crate::sequences;
use crate::text;
use crate::text::{
    ascii_hexdigit, byte_len, char_len, chars_of, comes_before, same_text, to_ascii_lower, to_lower,
    trim, until_nul,
};
use vstd::prelude::*;

verus! {

/// The longest name of a category, in characters.
pub const MAX_CATEGORY_CHARS: usize = 60;

/// `#` and six hexadecimal digits.
pub open spec fn is_color(value: Seq<char>) -> bool {
    &&& value.len() == 7
    &&& value[0] == '#'
    &&& forall|i: int| 1 <= i < 7 ==> text::is_ascii_hexdigit(#[trigger] value[i])
}

/// Whether a value is a colour of the form `#RRGGBB`.
pub fn is_valid_hex_color(value: &str) -> (answer: bool)
    ensures
        answer == is_color(value@),
{
    let chars = chars_of(value);
    if chars.len() != 7 || chars[0] != '#' {
        return false;
    }
    let mut i: usize = 1;
    while i < 7
        invariant
            1 <= i <= 7,
            chars@ == value@,
            chars@.len() == 7,
            forall|k: int| 1 <= k < i ==> text::is_ascii_hexdigit(#[trigger] chars@[k]),
        decreases 7 - i,
    {
        if !ascii_hexdigit(chars[i]) {
            return false;
        }
        i += 1;
    }
    true
}

pub fn validate_color(value: &str) -> (result: Result<(), RepositoryError>)
    ensures
        if is_color(value@) {
            result is Ok
        } else {
            result == Err::<(), RepositoryError>(RepositoryError::InvalidColor)
        },
{
    if is_valid_hex_color(value) {
        Ok(())
    } else {
        Err(RepositoryError::InvalidColor)
    }
}

/// A name of 1 to 60 characters, not counting white space at its ends.
pub open spec fn is_category_name(value: Seq<char>) -> bool {
    0 < text::trimmed(value).len() <= MAX_CATEGORY_CHARS
}

/// The name without white space at its ends, and the same in lower case, by which duplicates
/// are found.
pub fn normalize_category_name(value: &str) -> (result: Result<(String, String), RepositoryError>)
    ensures
        if is_category_name(value@) {
            result matches Ok((name, normalized)) && name@ == text::trimmed(value@) && normalized@
                == text::lowered(text::trimmed(value@))
        } else {
            result == Err::<(String, String), RepositoryError>(RepositoryError::InvalidCategoryName)
        },
{
    let name = trim(value);
    let count = char_len(name.as_str());
    if count == 0 || count > MAX_CATEGORY_CHARS {
        return Err(RepositoryError::InvalidCategoryName);
    }
    let normalized = to_lower(name.as_str());
    Ok((name, normalized))
}

/// What is wrong with the name or the colour of a category, if anything.
pub open spec fn category_problem(name: Seq<char>, color: Seq<char>) -> Option<RepositoryError> {
    if !is_category_name(name) {
        Some(RepositoryError::InvalidCategoryName)
    } else if !is_color(color) {
        Some(RepositoryError::InvalidColor)
    } else {
        None
    }
}

/// What of a name is compared letter by letter: what stands before a NUL character, with its
/// ASCII letters in lower case.
pub open spec fn name_key(name: Seq<char>) -> Seq<char> {
    text::before_nul(text::ascii_lowercase(name))
}

/// By sort order, then by name without regard to the case of ASCII letters, then as inserted. Of
/// two names that differ after a NUL character only, the shorter one in bytes comes first.
pub open spec fn listed_before(rows: Seq<CategoryRowView>, i: int, j: int) -> bool {
    let a = rows[i].category;
    let b = rows[j].category;
    let (x, y) = (name_key(a.name), name_key(b.name));
    let (m, n) = (text::utf8_len(a.name), text::utf8_len(b.name));
    a.sort_order < b.sort_order || (a.sort_order == b.sort_order && (text::lex_before(x, y) || (x
        == y && (m < n || (m == n && i < j)))))
}

struct CategoriesAsListed<'a> {
    rows: &'a Vec<CategoryRow>,
}

impl<'a> Ranked for CategoriesAsListed<'a> {
    closed spec fn count(&self) -> nat {
        self.rows@.len()
    }

    closed spec fn precedes(&self, i: int, j: int) -> bool {
        listed_before(rows::category_views(self.rows@), i, j)
    }

    proof fn order_is_strict(&self) {
        let views = rows::category_views(self.rows@);
        let precedes = |i: int, j: int| self.precedes(i, j);
        let key = |i: int| name_key(views[i].category.name);
        assert forall|i: int| 0 <= i < self.count() implies !#[trigger] precedes(i, i) by {
            text::lemma_lex_irreflexive(key(i));
        }
        assert forall|i: int, j: int, k: int|
            0 <= i < self.count() && 0 <= j < self.count() && 0 <= k < self.count()
                && #[trigger] precedes(i, j) && #[trigger] precedes(j, k) implies precedes(
            i,
            k,
        ) by {
            if text::lex_before(key(i), key(j)) && text::lex_before(key(j), key(k)) {
                text::lemma_lex_transitive(key(i), key(j), key(k));
            }
        }
        assert forall|i: int, j: int|
            0 <= i < self.count() && 0 <= j < self.count() && i != j implies (#[trigger] precedes(
            i,
            j,
        ) || precedes(j, i)) by {
            text::lemma_lex_total(key(i), key(j));
        }
    }

    fn comes_before(&self, i: usize, j: usize) -> (answer: bool) {
        let a = &self.rows[i].category;
        let b = &self.rows[j].category;
        proof {
            assert(rows::category_views(self.rows@)[i as int].category == a@);
            assert(rows::category_views(self.rows@)[j as int].category == b@);
        }
        let x = until_nul(to_ascii_lower(a.name.as_str()).as_str());
        let y = until_nul(to_ascii_lower(b.name.as_str()).as_str());
        let m: usize = byte_len(a.name.as_str());
        let n: usize = byte_len(b.name.as_str());
        a.sort_order < b.sort_order || (a.sort_order == b.sort_order && (comes_before(
            x.as_str(),
            y.as_str(),
        ) || (same_text(x.as_str(), y.as_str()) && (m < n || (m == n && i < j)))))
    }
}

impl RepositoryView {
    /// The categories in the order in which they are listed.
    pub open spec fn listed_categories(self) -> Seq<CategoryView> {
        ranking::ranking(
            self.categories.len(),
            |i: int, j: int| listed_before(self.categories, i, j),
        ).map_values(|i: int| self.categories[i].category)
    }

    /// A category other than the one at `at` has this normalized name.
    pub open spec fn name_is_taken(self, normalized: Seq<char>, at: int) -> bool {
        exists|i: int|
            0 <= i < self.categories.len() && i != at && (
            #[trigger] self.categories[i]).normalized_name == normalized
    }

    /// The history with a new category, or why there is none.
    pub open spec fn category_created(
        self,
        name: Seq<char>,
        color: Seq<char>,
        now: i64,
        id: Seq<char>,
    ) -> Result<RepositoryView, RepositoryError> {
        let normalized = text::lowered(text::trimmed(name));
        match category_problem(name, color) {
            Some(problem) => Err(problem),
            None => if self.name_is_taken(normalized, -1) {
                Err(RepositoryError::DuplicateCategory)
            } else if self.has_category(id) {
                Err(RepositoryError::ConstraintViolation)
            } else {
                Ok(
                    RepositoryView {
                        categories: self.categories.push(
                            CategoryRowView {
                                category: CategoryView {
                                    id,
                                    name: text::trimmed(name),
                                    color,
                                    created_at: now,
                                    sort_order: 0,
                                },
                                normalized_name: normalized,
                            },
                        ),
                        ..self
                    },
                )
            },
        }
    }

    /// The history with a category renamed and recoloured; nothing changes if there is none.
    pub open spec fn category_updated(self, id: Seq<char>, name: Seq<char>, color: Seq<char>) -> Result<
        RepositoryView,
        RepositoryError,
    > {
        let normalized = text::lowered(text::trimmed(name));
        let at = self.category_position(id);
        match category_problem(name, color) {
            Some(problem) => Err(problem),
            None => if at >= self.categories.len() {
                Ok(self)
            } else if self.name_is_taken(normalized, at) {
                Err(RepositoryError::DuplicateCategory)
            } else {
                Ok(
                    RepositoryView {
                        categories: self.categories.update(
                            at,
                            CategoryRowView {
                                category: CategoryView {
                                    name: text::trimmed(name),
                                    color,
                                    ..self.categories[at].category
                                },
                                normalized_name: normalized,
                            },
                        ),
                        ..self
                    },
                )
            },
        }
    }

    /// Without the category and its links.
    pub open spec fn without_category(self, id: Seq<char>) -> RepositoryView {
        RepositoryView {
            categories: self.categories.filter(|row: CategoryRowView| row.category.id != id),
            links: self.links.filter(|row: LinkRowView| row.category_id != id),
            ..self
        }
    }

    /// With the clip in the category.
    pub open spec fn category_assigned(self, clip: Seq<char>, category: Seq<char>, now: i64) -> Result<
        RepositoryView,
        RepositoryError,
    > {
        if !self.has_clip(clip) || !self.has_category(category) {
            Err(RepositoryError::ConstraintViolation)
        } else if self.has_link(clip, category) {
            Ok(self)
        } else {
            Ok(
                RepositoryView {
                    links: self.links.push(
                        LinkRowView { clip_id: clip, category_id: category, created_at: now },
                    ),
                    ..self
                },
            )
        }
    }

    /// With the clip no longer in the category.
    pub open spec fn category_unassigned(self, clip: Seq<char>, category: Seq<char>) -> RepositoryView {
        RepositoryView {
            links: self.links.filter(
                |row: LinkRowView| !(row.clip_id == clip && row.category_id == category),
            ),
            ..self
        }
    }
}

/// What creating a category does and returns.
pub open spec fn category_was_created(
    before: RepositoryView,
    after: RepositoryView,
    name: Seq<char>,
    color: Seq<char>,
    now: i64,
    id: Seq<char>,
    result: Result<Category, RepositoryError>,
) -> bool {
    match before.category_created(name, color, now, id) {
        Ok(next) => after == next && (result matches Ok(category) && category@
            == next.categories.last().category),
        Err(error) => after == before && result == Err::<Category, RepositoryError>(error),
    }
}

impl Repository {
    /// All categories in the order in which they are listed.
    pub fn list_categories(&self) -> (categories: Vec<Category>)
        ensures
            summary::categories_of(categories@) == self@.listed_categories(),
    {
        let ranked = CategoriesAsListed { rows: &self.categories };
        let order = rank(&ranked, self.categories.len());
        let ghost positions = ranking::positions(order@);
        let ghost show = |i: int| self@.categories[i].category;
        proof {
            let a = |i: int, j: int| ranked.precedes(i, j);
            let b = |i: int, j: int| listed_before(self@.categories, i, j);
            assert(a =~= b);
        }
        let mut categories: Vec<Category> = Vec::new();
        let mut k: usize = 0;
        while k < order.len()
            invariant
                k <= order@.len(),
                positions == ranking::positions(order@),
                show == (|i: int| self@.categories[i].category),
                forall|m: int|
                    0 <= m < order@.len() ==> #[trigger] order@[m] < self.categories@.len(),
                summary::categories_of(categories@) =~= positions.map_values(show).take(k as int),
            decreases order@.len() - k,
        {
            let at = order[k];
            let ghost before = categories@;
            categories.push(self.categories[at].category.clone());
            proof {
                assert(summary::categories_of(categories@) =~= summary::categories_of(before).push(
                    self.categories@[at as int].category@,
                ));
                assert(positions.map_values(show)[k as int]
                    == self.categories@[at as int].category@);
            }
            k += 1;
        }
        proof {
            assert(positions.map_values(show).take(k as int) =~= positions.map_values(show));
        }
        categories
    }

    fn name_is_used(&self, normalized: &str, except: usize) -> (answer: bool)
        ensures
            answer == self@.name_is_taken(normalized@, except as int),
    {
        let mut i: usize = 0;
        while i < self.categories.len()
            invariant
                i <= self.categories@.len(),
                forall|k: int|
                    0 <= k < i && k != except ==> (#[trigger] self@.categories[k]).normalized_name
                        != normalized@,
            decreases self.categories@.len() - i,
        {
            proof {
                assert(self@.categories[i as int] == self.categories@[i as int]@);
            }
            if i != except && same_text(self.categories[i].normalized_name.as_str(), normalized) {
                return true;
            }
            i += 1;
        }
        false
    }

    /// [`Self::create_category`] with the identifier to use.
    pub fn create_category_as(&mut self, name: &str, color: &str, now: i64, id: &str) -> (result:
        Result<Category, RepositoryError>)
        requires
            old(self)@.wf(),
        ensures
            category_was_created(old(self)@, final(self)@, name@, color@, now, id@, result),
            final(self)@.wf(),
    {
        let (name, normalized_name) = match normalize_category_name(name) {
            Ok(names) => names,
            Err(error) => return Err(error),
        };
        match validate_color(color) {
            Ok(()) => {},
            Err(error) => return Err(error),
        }
        if self.name_is_used(normalized_name.as_str(), self.categories.len()) {
            return Err(RepositoryError::DuplicateCategory);
        }
        if self.find_category(id) < self.categories.len() {
            return Err(RepositoryError::ConstraintViolation);
        }
        let category = Category {
            id: id.to_owned(),
            name,
            color: color.to_owned(),
            created_at: now,
            sort_order: 0,
        };
        let copy = category.clone();
        let row = CategoryRow { category, normalized_name };
        let ghost before = self@;
        self.categories.push(row);
        proof {
            assert(self@.categories =~= before.categories.push(row@));
            assert forall|i: int|
                0 <= i < before.categories.len() implies (
            #[trigger] before.categories[i]).normalized_name != row@.normalized_name
                && before.categories[i].category.id != row@.category.id by {}
            lemma_with_category_wf(before, self@, row@);
        }
        Ok(copy)
    }

    /// Creates a category; its name must be new.
    pub fn create_category(&mut self, name: &str, color: &str, now: i64) -> (result: Result<
        Category,
        RepositoryError,
    >)
        requires
            old(self)@.wf(),
        ensures
            exists|id: u128|
                id != 0 && #[trigger] category_was_created(
                    old(self)@,
                    final(self)@,
                    name@,
                    color@,
                    now,
                    identity::uuid_text(id),
                    result,
                ),
            final(self)@.wf(),
    {
        let id = random_uuid();
        let text = uuid_to_text(id);
        self.create_category_as(name, color, now, text.as_str())
    }

    /// Renames and recolours a category; there may be none.
    pub fn update_category(&mut self, id: &str, name: &str, color: &str) -> (result: Result<
        (),
        RepositoryError,
    >)
        requires
            old(self)@.wf(),
        ensures
            match old(self)@.category_updated(id@, name@, color@) {
                Ok(next) => result is Ok && final(self)@ == next,
                Err(error) => result == Err::<(), RepositoryError>(error) && final(self)@ == old(
                    self,
                )@,
            },
            final(self)@.wf(),
    {
        let (name, normalized_name) = match normalize_category_name(name) {
            Ok(names) => names,
            Err(error) => return Err(error),
        };
        match validate_color(color) {
            Ok(()) => {},
            Err(error) => return Err(error),
        }
        let at = self.find_category(id);
        if at >= self.categories.len() {
            return Ok(());
        }
        if self.name_is_used(normalized_name.as_str(), at) {
            return Err(RepositoryError::DuplicateCategory);
        }
        let ghost before = self@;
        let mut row = self.categories[at].clone();
        row.category.name = name;
        row.category.color = color.to_owned();
        row.normalized_name = normalized_name;
        proof {
            assert(before.categories[at as int] == self.categories@[at as int]@);
        }
        self.categories.set(at, row);
        proof {
            assert(self@.categories =~= before.categories.update(at as int, row@));
            lemma_with_changed_category_wf(before, self@, at as int, row@);
        }
        Ok(())
    }

    /// Deletes a category and takes all clips out of it; there may be none.
    pub fn delete_category(&mut self, id: &str)
        requires
            old(self)@.wf(),
        ensures
            final(self)@ == old(self)@.without_category(id@),
            final(self)@.wf(),
    {
        let ghost before = self@;
        let ghost keep = |row: CategoryRowView| row.category.id != id@;
        let mut categories: Vec<CategoryRow> = Vec::new();
        std::mem::swap(&mut categories, &mut self.categories);
        let mut kept: Vec<CategoryRow> = Vec::new();
        let ghost all = categories@;
        proof {
            reveal(Seq::filter);
            assert(rows::category_views(kept@) =~= rows::category_views(all).take(0).filter(keep));
        }
        for row in iter: categories.into_iter()
            invariant
                iter.seq() == all,
                keep == (|row: CategoryRowView| row.category.id != id@),
                rows::category_views(kept@) == rows::category_views(all).take(iter.index()).filter(
                    keep,
                ),
        {
            proof {
                sequences::lemma_filter_take(rows::category_views(all), keep, iter.index());
            }
            if !same_text(row.category.id.as_str(), id) {
                let ghost kept_before = kept@;
                kept.push(row);
                proof {
                    assert(rows::category_views(kept@) =~= rows::category_views(kept_before).push(
                        row@,
                    ));
                }
            }
        }
        self.categories = kept;
        proof {
            assert(rows::category_views(all).take(all.len() as int) =~= rows::category_views(all));
        }
        let ghost keep_link = |row: LinkRowView| row.category_id != id@;
        let mut links: Vec<LinkRow> = Vec::new();
        std::mem::swap(&mut links, &mut self.links);
        let mut kept_links: Vec<LinkRow> = Vec::new();
        let ghost all_links = links@;
        proof {
            reveal(Seq::filter);
            assert(rows::link_views(kept_links@) =~= rows::link_views(all_links).take(0).filter(
                keep_link,
            ));
        }
        for row in iter: links.into_iter()
            invariant
                iter.seq() == all_links,
                keep_link == (|row: LinkRowView| row.category_id != id@),
                rows::link_views(kept_links@) == rows::link_views(all_links).take(
                    iter.index(),
                ).filter(keep_link),
        {
            proof {
                sequences::lemma_filter_take(rows::link_views(all_links), keep_link, iter.index());
            }
            if !same_text(row.category_id.as_str(), id) {
                let ghost kept_before = kept_links@;
                kept_links.push(row);
                proof {
                    assert(rows::link_views(kept_links@) =~= rows::link_views(kept_before).push(
                        row@,
                    ));
                }
            }
        }
        self.links = kept_links;
        proof {
            assert(rows::link_views(all_links).take(all_links.len() as int) =~= rows::link_views(
                all_links,
            ));
            lemma_without_category_wf(before, id@);
        }
    }

    /// Puts a clip into a category; both must exist.
    pub fn assign_category(&mut self, clip: &str, category: &str, now: i64) -> (result: Result<
        (),
        RepositoryError,
    >)
        requires
            old(self)@.wf(),
        ensures
            match old(self)@.category_assigned(clip@, category@, now) {
                Ok(next) => result is Ok && final(self)@ == next,
                Err(error) => result == Err::<(), RepositoryError>(error) && final(self)@ == old(
                    self,
                )@,
            },
            final(self)@.wf(),
    {
        if self.find_clip(clip) >= self.clips.len() || self.find_category(category)
            >= self.categories.len() {
            return Err(RepositoryError::ConstraintViolation);
        }
        if self.is_linked(clip, category) {
            return Ok(());
        }
        let row = LinkRow {
            clip_id: clip.to_owned(),
            category_id: category.to_owned(),
            created_at: now,
        };
        let ghost before = self@;
        self.links.push(row);
        proof {
            assert(self@.links =~= before.links.push(row@));
            lemma_with_link_wf(before, self@, row@);
        }
        Ok(())
    }

    /// Takes a clip out of a category; it may not be in it.
    pub fn unassign_category(&mut self, clip: &str, category: &str)
        requires
            old(self)@.wf(),
        ensures
            final(self)@ == old(self)@.category_unassigned(clip@, category@),
            final(self)@.wf(),
    {
        let ghost before = self@;
        let ghost keep = |row: LinkRowView| !(row.clip_id == clip@ && row.category_id == category@);
        let mut links: Vec<LinkRow> = Vec::new();
        std::mem::swap(&mut links, &mut self.links);
        let mut kept: Vec<LinkRow> = Vec::new();
        let ghost all = links@;
        proof {
            reveal(Seq::filter);
            assert(rows::link_views(kept@) =~= rows::link_views(all).take(0).filter(keep));
        }
        for row in iter: links.into_iter()
            invariant
                iter.seq() == all,
                keep == (|row: LinkRowView|
                    !(row.clip_id == clip@ && row.category_id == category@)),
                rows::link_views(kept@) == rows::link_views(all).take(iter.index()).filter(keep),
        {
            proof {
                sequences::lemma_filter_take(rows::link_views(all), keep, iter.index());
            }
            if !(same_text(row.clip_id.as_str(), clip) && same_text(
                row.category_id.as_str(),
                category,
            )) {
                let ghost kept_before = kept@;
                kept.push(row);
                proof {
                    assert(rows::link_views(kept@) =~= rows::link_views(kept_before).push(row@));
                }
            }
        }
        self.links = kept;
        proof {
            assert(rows::link_views(all).take(all.len() as int) =~= rows::link_views(all));
            lemma_fewer_links_wf(before, keep);
        }
    }
}

proof fn lemma_same_tables_have_same_rows(a: RepositoryView, b: RepositoryView)
    requires
        a.clips == b.clips,
        a.blobs == b.blobs,
    ensures
        forall|id: Seq<char>| #[trigger] a.has_clip(id) ==> b.has_clip(id),
        forall|hash: Seq<char>| #[trigger] a.has_blob(hash) ==> b.has_blob(hash),
{
    assert forall|id: Seq<char>| #[trigger] a.has_clip(id) implies b.has_clip(id) by {
        let k = choose|k: int| 0 <= k < a.clips.len() && (#[trigger] a.clips[k]).id == id;
        assert(b.clips[k].id == id);
    }
    assert forall|hash: Seq<char>| #[trigger] a.has_blob(hash) implies b.has_blob(hash) by {
        let k = choose|k: int| 0 <= k < a.blobs.len() && (#[trigger] a.blobs[k]).hash == hash;
        assert(b.blobs[k].hash == hash);
    }
}

proof fn lemma_with_category_wf(before: RepositoryView, after: RepositoryView, row: CategoryRowView)
    requires
        before.wf(),
        after == (RepositoryView { categories: before.categories.push(row), ..before }),
        forall|i: int|
            0 <= i < before.categories.len() ==> (#[trigger] before.categories[i]).normalized_name
                != row.normalized_name && before.categories[i].category.id != row.category.id,
    ensures
        after.wf(),
{
    lemma_same_tables_have_same_rows(before, after);
    let last = before.categories.len() as int;
    assert forall|i: int, j: int| 0 <= i < j < after.categories.len() implies (
    #[trigger] after.categories[i]).category.id != (#[trigger] after.categories[j]).category.id
        && after.categories[i].normalized_name != after.categories[j].normalized_name by {
        if j == last {
            assert(before.categories[i].category.id != row.category.id);
        } else {
            assert(before.categories[i].category.id != before.categories[j].category.id);
        }
    }
    assert forall|i: int| 0 <= i < after.links.len() implies after.has_clip(
        (#[trigger] after.links[i]).clip_id,
    ) && after.has_category(after.links[i].category_id) by {
        assert(before.has_clip(before.links[i].clip_id));
        let c = choose|c: int|
            0 <= c < before.categories.len() && (#[trigger] before.categories[c]).category.id
                == before.links[i].category_id;
        assert(after.categories[c].category.id == after.links[i].category_id);
    }
    assert forall|i: int|
        0 <= i < after.clips.len() && (
        #[trigger] after.clips[i]).blob_hash is Some implies after.has_blob(
        after.clips[i].blob_hash->0,
    ) by {
        assert(before.clips[i].blob_hash is Some);
        assert(before.has_blob(before.clips[i].blob_hash->0));
    }
}

proof fn lemma_with_changed_category_wf(
    before: RepositoryView,
    after: RepositoryView,
    at: int,
    row: CategoryRowView,
)
    requires
        before.wf(),
        0 <= at < before.categories.len(),
        after == (RepositoryView { categories: before.categories.update(at, row), ..before }),
        row.category.id == before.categories[at].category.id,
        !before.name_is_taken(row.normalized_name, at),
    ensures
        after.wf(),
{
    lemma_same_tables_have_same_rows(before, after);
    assert forall|i: int, j: int| 0 <= i < j < after.categories.len() implies (
    #[trigger] after.categories[i]).category.id != (#[trigger] after.categories[j]).category.id
        && after.categories[i].normalized_name != after.categories[j].normalized_name by {
        assert(before.categories[i].category.id != before.categories[j].category.id);
        if i == at {
            assert(before.categories[j].normalized_name != row.normalized_name);
        } else if j == at {
            assert(before.categories[i].normalized_name != row.normalized_name);
        }
    }
    assert forall|i: int| 0 <= i < after.links.len() implies after.has_clip(
        (#[trigger] after.links[i]).clip_id,
    ) && after.has_category(after.links[i].category_id) by {
        assert(before.has_clip(before.links[i].clip_id));
        let c = choose|c: int|
            0 <= c < before.categories.len() && (#[trigger] before.categories[c]).category.id
                == before.links[i].category_id;
        assert(after.categories[c].category.id == after.links[i].category_id);
    }
    assert forall|i: int|
        0 <= i < after.clips.len() && (
        #[trigger] after.clips[i]).blob_hash is Some implies after.has_blob(
        after.clips[i].blob_hash->0,
    ) by {
        assert(before.clips[i].blob_hash is Some);
        assert(before.has_blob(before.clips[i].blob_hash->0));
    }
}

proof fn lemma_without_category_wf(before: RepositoryView, id: Seq<char>)
    requires
        before.wf(),
    ensures
        before.without_category(id).wf(),
{
    let after = before.without_category(id);
    let keep = |row: CategoryRowView| row.category.id != id;
    let keep_link = |row: LinkRowView| row.category_id != id;
    lemma_same_tables_have_same_rows(before, after);
    sequences::lemma_filter_pairs(
        before.categories,
        keep,
        |a: CategoryRowView, b: CategoryRowView|
            a.category.id != b.category.id && a.normalized_name != b.normalized_name,
    );
    sequences::lemma_filter_pairs(
        before.links,
        keep_link,
        |a: LinkRowView, b: LinkRowView| !super::same_link(a, b),
    );
    sequences::lemma_filter_members(before.categories, keep);
    sequences::lemma_filter_members(before.links, keep_link);
    assert forall|i: int| 0 <= i < after.links.len() implies after.has_clip(
        (#[trigger] after.links[i]).clip_id,
    ) && after.has_category(after.links[i].category_id) by {
        assert(after.links.contains(after.links[i]));
        let m = choose|m: int| 0 <= m < before.links.len() && before.links[m] == after.links[i];
        assert(before.has_clip(before.links[m].clip_id));
        assert(before.has_category(before.links[m].category_id));
        let c = choose|c: int|
            0 <= c < before.categories.len() && (#[trigger] before.categories[c]).category.id
                == before.links[m].category_id;
        assert(before.categories.contains(before.categories[c]));
        assert(after.categories.contains(before.categories[c]));
        let n = choose|n: int|
            0 <= n < after.categories.len() && after.categories[n] == before.categories[c];
        assert(after.categories[n].category.id == after.links[i].category_id);
    }
    assert forall|i: int|
        0 <= i < after.clips.len() && (
        #[trigger] after.clips[i]).blob_hash is Some implies after.has_blob(
        after.clips[i].blob_hash->0,
    ) by {
        assert(before.clips[i].blob_hash is Some);
        assert(before.has_blob(before.clips[i].blob_hash->0));
    }
}

proof fn lemma_with_link_wf(before: RepositoryView, after: RepositoryView, row: LinkRowView)
    requires
        before.wf(),
        after == (RepositoryView { links: before.links.push(row), ..before }),
        before.has_clip(row.clip_id),
        before.has_category(row.category_id),
        !before.has_link(row.clip_id, row.category_id),
    ensures
        after.wf(),
{
    lemma_same_tables_have_same_rows(before, after);
    let last = before.links.len() as int;
    assert forall|i: int, j: int| 0 <= i < j < after.links.len() implies !super::same_link(
        #[trigger] after.links[i],
        #[trigger] after.links[j],
    ) by {
        if j == last {
            assert(before.links[i] == after.links[i]);
        } else {
            assert(!super::same_link(before.links[i], before.links[j]));
        }
    }
    assert forall|i: int| 0 <= i < after.links.len() implies after.has_clip(
        (#[trigger] after.links[i]).clip_id,
    ) && after.has_category(after.links[i].category_id) by {
        if i < last {
            assert(before.has_clip(before.links[i].clip_id));
            assert(before.has_category(before.links[i].category_id));
        }
        let id = after.links[i].category_id;
        assert(before.has_category(id));
        let c = choose|c: int|
            0 <= c < before.categories.len() && (#[trigger] before.categories[c]).category.id == id;
        assert(after.categories[c].category.id == id);
        assert(before.has_clip(after.links[i].clip_id));
    }
    assert forall|i: int|
        0 <= i < after.clips.len() && (
        #[trigger] after.clips[i]).blob_hash is Some implies after.has_blob(
        after.clips[i].blob_hash->0,
    ) by {
        assert(before.clips[i].blob_hash is Some);
        assert(before.has_blob(before.clips[i].blob_hash->0));
    }
}

proof fn lemma_fewer_links_wf(before: RepositoryView, keep: spec_fn(LinkRowView) -> bool)
    requires
        before.wf(),
    ensures
        (RepositoryView { links: before.links.filter(keep), ..before }).wf(),
{
    let after = RepositoryView { links: before.links.filter(keep), ..before };
    lemma_same_tables_have_same_rows(before, after);
    sequences::lemma_filter_pairs(
        before.links,
        keep,
        |a: LinkRowView, b: LinkRowView| !super::same_link(a, b),
    );
    sequences::lemma_filter_members(before.links, keep);
    assert forall|i: int| 0 <= i < after.links.len() implies after.has_clip(
        (#[trigger] after.links[i]).clip_id,
    ) && after.has_category(after.links[i].category_id) by {
        assert(after.links.contains(after.links[i]));
        let m = choose|m: int| 0 <= m < before.links.len() && before.links[m] == after.links[i];
        assert(before.has_clip(before.links[m].clip_id));
        assert(before.has_category(before.links[m].category_id));
        let c = choose|c: int|
            0 <= c < before.categories.len() && (#[trigger] before.categories[c]).category.id
                == before.links[m].category_id;
        assert(after.categories[c].category.id == after.links[i].category_id);
    }
    assert forall|i: int|
        0 <= i < after.clips.len() && (
        #[trigger] after.clips[i]).blob_hash is Some implies after.has_blob(
        after.clips[i].blob_hash->0,
    ) by {
        assert(before.clips[i].blob_hash is Some);
        assert(before.has_blob(before.clips[i].blob_hash->0));
    }
}

/// Deleting a category takes its links away and nothing else: all clips stay, and so do the
/// links to other categories.
pub proof fn deleting_a_category_takes_only_links(repository: RepositoryView, id: Seq<char>)
    ensures
        repository.without_category(id).clips == repository.clips,
        repository.without_category(id).blobs == repository.blobs,
        forall|row: LinkRowView|
            repository.without_category(id).links.contains(row) <==> (
            #[trigger] repository.links.contains(row) && row.category_id != id),
{
    sequences::lemma_filter_members(repository.links, |row: LinkRowView| row.category_id != id);
}

/// Putting a clip into a category it is in already changes nothing.
pub proof fn assigning_twice_is_assigning_once(
    repository: RepositoryView,
    clip: Seq<char>,
    category: Seq<char>,
    now: i64,
    later: i64,
)
    requires
        repository.category_assigned(clip, category, now) is Ok,
    ensures
        (repository.category_assigned(clip, category, now)->Ok_0).category_assigned(
            clip,
            category,
            later,
        ) == Ok::<RepositoryView, RepositoryError>(
            repository.category_assigned(clip, category, now)->Ok_0,
        ),
{
    let next = repository.category_assigned(clip, category, now)->Ok_0;
    let k = choose|k: int|
        0 <= k < repository.clips.len() && (#[trigger] repository.clips[k]).id == clip;
    assert(next.clips[k].id == clip);
    let c = choose|c: int|
        0 <= c < repository.categories.len() && (#[trigger] repository.categories[c]).category.id
            == category;
    assert(next.categories[c].category.id == category);
    if !repository.has_link(clip, category) {
        assert(next.links[repository.links.len() as int].clip_id == clip);
    }
    assert(next.has_link(clip, category));
}

/// Taking a clip out of a category undoes putting it in.
pub proof fn unassigning_undoes_assigning(
    repository: RepositoryView,
    clip: Seq<char>,
    category: Seq<char>,
    now: i64,
)
    requires
        repository.category_assigned(clip, category, now) is Ok,
        !repository.has_link(clip, category),
    ensures
        (repository.category_assigned(clip, category, now)->Ok_0).category_unassigned(
            clip,
            category,
        ) == repository,
{
    let keep = |row: LinkRowView| !(row.clip_id == clip && row.category_id == category);
    let next = repository.category_assigned(clip, category, now)->Ok_0;
    sequences::lemma_filter_push(
        repository.links,
        keep,
        LinkRowView { clip_id: clip, category_id: category, created_at: now },
    );
    sequences::lemma_filter_all(repository.links, keep);
    assert(next.category_unassigned(clip, category) =~= repository);
}

} // verus!
