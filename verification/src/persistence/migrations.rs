//! Bringing the rows of an earlier version into the present form.

use crate::blob_store::BlobStore;
use crate::domain::{Category, CategoryView, ContentType, PayloadKind};
use crate::persistence::legacy;
use crate::persistence::legacy::{
    DatabaseView, LegacyCategory, LegacyCategoryView, LegacyClip, LegacyClipView, LegacyDatabase,
    LegacyLink, LegacyLinkView, StoredTime, TimeView,
};
use crate::persistence::rows;
use crate::persistence::rows::{
    CategoryRow, CategoryRowView, ClipRow, ClipRowView, LinkRow, LinkRowView,
};
use crate::persistence::{Repository, RepositoryError, RepositoryView};
use crate::text;
use crate::text::{char_len, read_number, same_text, to_ascii_lower, until_nul};
use vstd::prelude::*;

verus! {

/// A positive number below this, the beginning of the year 2000 in milliseconds, is taken for
/// seconds.
pub const SECONDS_THRESHOLD: i64 = 946_684_800_000;

/// The last migration.
pub const LATEST_VERSION: u32 = 10;

/// The largest count that clips are merged into.
pub const MAX_MERGED_COUNT: i64 = 2_147_483_647;

pub open spec fn millis_from(number: i64) -> i64 {
    if 0 < number < SECONDS_THRESHOLD {
        (number * 1000) as i64
    } else {
        number
    }
}

fn to_millis(number: i64) -> (millis: i64)
    ensures
        millis == millis_from(number),
{
    if 0 < number && number < SECONDS_THRESHOLD {
        number * 1000
    } else {
        number
    }
}

/// How stored moments are changed.
#[derive(Debug, Clone, Copy, PartialEq, Eq, Structural)]
pub enum Retiming {
    /// Texts become the milliseconds they denote, or the present.
    ReadTexts,
    /// Stored numbers that count seconds become milliseconds; what was read from a text stays.
    ScaleSeconds,
    /// Both.
    Both,
    /// What was read from a text is stored as a number.
    Settle,
}

/// The milliseconds that were read, or the present.
pub open spec fn read_or_now(millis: Option<i64>, now: i64) -> i64 {
    match millis {
        Some(millis) => millis,
        None => now,
    }
}

impl TimeView {
    pub open spec fn retimed(self, retiming: Retiming, now: i64) -> TimeView {
        match self {
            TimeView::Text { millis, .. } => match retiming {
                Retiming::ReadTexts => TimeView::Millis(read_or_now(millis, now)),
                Retiming::Both => TimeView::Number(read_or_now(millis, now)),
                _ => self,
            },
            TimeView::Number(number) => match retiming {
                Retiming::ScaleSeconds | Retiming::Both => TimeView::Number(millis_from(number)),
                _ => self,
            },
            TimeView::Millis(millis) => match retiming {
                Retiming::ReadTexts => self,
                _ => TimeView::Number(millis),
            },
        }
    }

    /// The number that stands for the moment. A text that no migration has replaced counts as
    /// the number that it writes out, else as the moment that it denotes, else as the present.
    pub open spec fn at(self, now: i64) -> i64 {
        match self {
            TimeView::Number(number) => number,
            TimeView::Millis(millis) => millis,
            TimeView::Text { text, millis } => match text::written_number(text) {
                Some(number) => number,
                None => read_or_now(millis, now),
            },
        }
    }
}

fn read_or(millis: Option<i64>, now: i64) -> (moment: i64)
    ensures
        moment == read_or_now(millis, now),
{
    match millis {
        Some(millis) => millis,
        None => now,
    }
}

fn retime(time: StoredTime, retiming: Retiming, now: i64) -> (retimed: StoredTime)
    ensures
        retimed@ == time@.retimed(retiming, now),
{
    match (time, retiming) {
        (StoredTime::Text { millis, .. }, Retiming::ReadTexts) => StoredTime::Millis(
            read_or(millis, now),
        ),
        (StoredTime::Text { millis, .. }, Retiming::Both) => StoredTime::Number(
            read_or(millis, now),
        ),
        (StoredTime::Text { text, millis }, _) => StoredTime::Text { text, millis },
        (StoredTime::Number(number), Retiming::ScaleSeconds | Retiming::Both) => StoredTime::Number(
            to_millis(number),
        ),
        (StoredTime::Number(number), _) => StoredTime::Number(number),
        (StoredTime::Millis(millis), Retiming::ReadTexts) => StoredTime::Millis(millis),
        (StoredTime::Millis(millis), _) => StoredTime::Number(millis),
    }
}

fn number_at(time: &StoredTime, now: i64) -> (number: i64)
    ensures
        number == time@.at(now),
{
    match time {
        StoredTime::Number(number) => *number,
        StoredTime::Millis(millis) => *millis,
        StoredTime::Text { text, millis } => match read_number(text.as_str()) {
            Some(number) => number,
            None => read_or(*millis, now),
        },
    }
}

impl LegacyClipView {
    /// The domain, or nothing.
    pub open spec fn key(self) -> Seq<char> {
        match self.domain {
            Some(domain) => domain,
            None => Seq::empty(),
        }
    }

    pub open spec fn in_slot(self, hash: Seq<char>, key: Seq<char>) -> bool {
        self.content_hash == hash && self.key() == key
    }

    pub open spec fn keyed(self) -> LegacyClipView {
        LegacyClipView { domain_key: self.key(), ..self }
    }

    pub open spec fn retimed(self, retiming: Retiming, now: i64) -> LegacyClipView {
        LegacyClipView {
            created_at: self.created_at.retimed(retiming, now),
            last_copied_at: self.last_copied_at.retimed(retiming, now),
            ..self
        }
    }
}

impl LegacyCategoryView {
    pub open spec fn retimed(self, retiming: Retiming, now: i64) -> LegacyCategoryView {
        LegacyCategoryView { created_at: self.created_at.retimed(retiming, now), ..self }
    }
}

impl LegacyLinkView {
    pub open spec fn retimed(self, retiming: Retiming, now: i64) -> LegacyLinkView {
        LegacyLinkView { created_at: self.created_at.retimed(retiming, now), ..self }
    }
}

pub open spec fn has_slot(clips: Seq<LegacyClipView>, hash: Seq<char>, key: Seq<char>) -> bool {
    exists|i: int| 0 <= i < clips.len() && (#[trigger] clips[i]).in_slot(hash, key)
}

pub open spec fn has_id(clips: Seq<LegacyClipView>, id: Seq<char>) -> bool {
    exists|i: int| 0 <= i < clips.len() && (#[trigger] clips[i]).id == id
}

/// The first clip of each hash and domain.
pub open spec fn first_of_each(clips: Seq<LegacyClipView>) -> Seq<LegacyClipView>
    decreases clips.len(),
{
    if clips.len() == 0 {
        Seq::empty()
    } else {
        let kept = first_of_each(clips.drop_last());
        let last = clips.last();
        if has_slot(kept, last.content_hash, last.key()) {
            kept
        } else {
            kept.push(last)
        }
    }
}

/// What is gathered from all clips of a hash and a domain: the identifier, content and type of
/// the earliest, the title of the latest that has one, the first and the last moment, the sum of
/// the counts, the largest sort key, and whether one is pinned.
#[verifier::ext_equal]
pub struct Gathered {
    pub id: Seq<char>,
    pub content: Seq<char>,
    pub content_type: ContentType,
    pub created_at: TimeView,
    pub last_copied_at: TimeView,
    pub title: Option<(TimeView, Seq<char>)>,
    pub total: int,
    pub pinned: bool,
    pub sort_key: i64,
}

impl LegacyClipView {
    pub open spec fn titled(self) -> Option<(TimeView, Seq<char>)> {
        match self.page_title {
            Some(title) if title.len() > 0 => Some((self.last_copied_at, title)),
            _ => None,
        }
    }

    pub open spec fn alone(self) -> Gathered {
        Gathered {
            id: self.id,
            content: self.content,
            content_type: self.content_type,
            created_at: self.created_at,
            last_copied_at: self.last_copied_at,
            title: self.titled(),
            total: self.copy_count as int,
            pinned: self.pinned,
            sort_key: self.sort_key,
        }
    }
}

impl Gathered {
    /// With one more clip, stored after the others.
    pub open spec fn joined(self, clip: LegacyClipView) -> Gathered {
        let earlier = clip.created_at.before(self.created_at);
        Gathered {
            id: if earlier {
                clip.id
            } else {
                self.id
            },
            content: if earlier {
                clip.content
            } else {
                self.content
            },
            content_type: if earlier {
                clip.content_type
            } else {
                self.content_type
            },
            created_at: if earlier {
                clip.created_at
            } else {
                self.created_at
            },
            last_copied_at: if self.last_copied_at.before(clip.last_copied_at) {
                clip.last_copied_at
            } else {
                self.last_copied_at
            },
            title: match (self.title, clip.titled()) {
                (Some((at, title)), Some((when, _))) if when.before(at) => Some((at, title)),
                (title, None) => title,
                (_, title) => title,
            },
            total: self.total + clip.copy_count,
            pinned: self.pinned || clip.pinned,
            sort_key: if clip.sort_key > self.sort_key {
                clip.sort_key
            } else {
                self.sort_key
            },
        }
    }

    /// The clip that takes the place of all that were gathered. A sum that is no count becomes
    /// zero.
    pub open spec fn merged(self, hash: Seq<char>, key: Seq<char>, now: i64) -> LegacyClipView {
        LegacyClipView {
            id: self.id,
            content: self.content,
            content_hash: hash,
            content_type: self.content_type,
            domain: if key.len() == 0 {
                None
            } else {
                Some(key)
            },
            domain_key: key,
            page_title: match self.title {
                Some((_, title)) => Some(title),
                None => None,
            },
            created_at: self.created_at.retimed(Retiming::Both, now),
            last_copied_at: self.last_copied_at.retimed(Retiming::Both, now),
            copy_count: if self.total > MAX_MERGED_COUNT {
                MAX_MERGED_COUNT
            } else if self.total < 1 {
                0
            } else {
                self.total as i64
            },
            pinned: self.pinned,
            sort_key: self.sort_key,
            payload_kind: PayloadKind::Text,
            blob_hash: None,
        }
    }
}

/// What is gathered from the clips of a hash and a domain, if there are any.
pub open spec fn gathered(clips: Seq<LegacyClipView>, hash: Seq<char>, key: Seq<char>) -> Option<
    Gathered,
>
    decreases clips.len(),
{
    if clips.len() == 0 {
        None
    } else {
        let before = gathered(clips.drop_last(), hash, key);
        let last = clips.last();
        if !last.in_slot(hash, key) {
            before
        } else {
            match before {
                Some(before) => Some(before.joined(last)),
                None => Some(last.alone()),
            }
        }
    }
}

/// The clip that takes the place of all clips with the hash and domain of `clip`.
pub open spec fn merged_clip(clips: Seq<LegacyClipView>, clip: LegacyClipView, now: i64) -> LegacyClipView {
    gathered(clips, clip.content_hash, clip.key())->0.merged(clip.content_hash, clip.key(), now)
}

/// Every clip can take its place: its count is positive.
pub open spec fn counts_are_positive(clips: Seq<LegacyClipView>) -> bool {
    forall|i: int| 0 <= i < clips.len() ==> (#[trigger] clips[i]).copy_count >= 1
}

pub open spec fn has_pair(
    links: Seq<LegacyLinkView>,
    clip_id: Seq<char>,
    category_id: Seq<char>,
) -> bool {
    exists|i: int|
        0 <= i < links.len() && (#[trigger] links[i]).clip_id == clip_id && links[i].category_id
            == category_id
}

/// The first position with this identifier, or the number of clips.
pub open spec fn position_of(clips: Seq<LegacyClipView>, id: Seq<char>) -> int {
    crate::sequences::first_index(clips, |clip: LegacyClipView| clip.id == id)
}

/// The first position with this hash and domain, or the number of clips.
pub open spec fn slot_of(clips: Seq<LegacyClipView>, hash: Seq<char>, key: Seq<char>) -> int {
    crate::sequences::first_index(clips, |clip: LegacyClipView| clip.in_slot(hash, key))
}

/// Links to clips lead to the clips that took their places; none is kept twice, and links to
/// clips that are not there are dropped.
pub open spec fn moved_links(
    links: Seq<LegacyLinkView>,
    clips: Seq<LegacyClipView>,
    merged: Seq<LegacyClipView>,
) -> Seq<LegacyLinkView>
    decreases links.len(),
{
    if links.len() == 0 {
        Seq::empty()
    } else {
        let before = moved_links(links.drop_last(), clips, merged);
        let link = links.last();
        let from = position_of(clips, link.clip_id);
        let to = slot_of(merged, clips[from].content_hash, clips[from].key());
        if from >= clips.len() || to >= merged.len() || has_pair(
            before,
            merged[to].id,
            link.category_id,
        ) {
            before
        } else {
            before.push(LegacyLinkView { clip_id: merged[to].id, ..link })
        }
    }
}

pub open spec fn categories_exist(
    links: Seq<LegacyLinkView>,
    categories: Seq<LegacyCategoryView>,
) -> bool {
    forall|i: int|
        0 <= i < links.len() ==> has_category(categories, (#[trigger] links[i]).category_id)
}

pub open spec fn has_category(categories: Seq<LegacyCategoryView>, id: Seq<char>) -> bool {
    exists|i: int| 0 <= i < categories.len() && (#[trigger] categories[i]).id == id
}

/// The migrations from the first to this one, each recorded once, after those that were.
pub open spec fn with_versions(versions: Seq<u32>, count: nat) -> Seq<u32>
    decreases count,
{
    if count == 0 {
        versions
    } else {
        let before = with_versions(versions, (count - 1) as nat);
        if before.contains(count as u32) {
            before
        } else {
            before.push(count as u32)
        }
    }
}

impl DatabaseView {
    pub open spec fn applied(self, version: u32) -> bool {
        self.versions.contains(version)
    }

    /// The second migration: every clip gets the key of its domain; where the normalized content
    /// is gone, of clips with the same hash and domain only the first stays, with its links.
    pub open spec fn second(self) -> DatabaseView {
        let clips = self.clips.map_values(|clip: LegacyClipView| clip.keyed());
        if self.applied(2) {
            self
        } else if self.has_normalized {
            DatabaseView { clips, ..self }
        } else {
            let kept = first_of_each(clips);
            DatabaseView {
                clips: kept,
                links: self.links.filter(|link: LegacyLinkView| has_id(kept, link.clip_id)),
                ..self
            }
        }
    }

    /// The third migration: the normalized content goes, where it is not under a constraint.
    pub open spec fn third(self) -> DatabaseView {
        if self.applied(3) || self.normalized_is_constrained {
            self
        } else {
            DatabaseView { has_normalized: false, ..self }
        }
    }

    pub open spec fn retimed(self, retiming: Retiming, now: i64) -> DatabaseView {
        DatabaseView {
            clips: self.clips.map_values(|clip: LegacyClipView| clip.retimed(retiming, now)),
            categories: self.categories.map_values(
                |category: LegacyCategoryView| category.retimed(retiming, now),
            ),
            links: self.links.map_values(|link: LegacyLinkView| link.retimed(retiming, now)),
            ..self
        }
    }

    /// The fifth migration: moments stored as texts become milliseconds.
    pub open spec fn fifth(self, now: i64) -> DatabaseView {
        if self.applied(5) {
            self
        } else {
            self.retimed(Retiming::ReadTexts, now)
        }
    }

    /// The clips are merged by hash and domain, and the links follow; `None` where a rule would
    /// be broken.
    pub open spec fn rebuilt(self, now: i64) -> Option<DatabaseView> {
        let clips = first_of_each(self.clips).map_values(
            |clip: LegacyClipView| merged_clip(self.clips, clip, now),
        );
        let links = moved_links(self.links, self.clips, clips);
        if counts_are_positive(clips) && categories_exist(links, self.categories) {
            Some(
                (DatabaseView {
                    clips,
                    links,
                    has_normalized: false,
                    normalized_is_constrained: false,
                    ..self
                }).retimed(Retiming::Settle, now),
            )
        } else {
            None
        }
    }

    /// The sixth migration: where the normalized content is still there, the clips are merged and
    /// it goes; else seconds become milliseconds, but for what was just read from a text.
    pub open spec fn sixth(self, now: i64) -> Option<DatabaseView> {
        if self.applied(6) {
            Some(self.retimed(Retiming::Settle, now))
        } else if self.has_normalized {
            self.rebuilt(now)
        } else {
            Some(
                (DatabaseView {
                    has_normalized: false,
                    normalized_is_constrained: false,
                    ..self
                }).retimed(Retiming::ScaleSeconds, now),
            )
        }
    }

    /// The tenth migration: clips get a kind, and all that were there before are texts.
    pub open spec fn tenth(self) -> DatabaseView {
        if self.applied(10) {
            self
        } else {
            DatabaseView {
                clips: self.clips.map_values(|clip: LegacyClipView| clip.as_text()),
                ..self
            }
        }
    }

    /// With all migrations recorded.
    pub open spec fn recorded(self) -> DatabaseView {
        DatabaseView { versions: with_versions(self.versions, LATEST_VERSION as nat), ..self }
    }

    /// All migrations that are missing; the fourth and those from the seventh to the ninth
    /// change no rows.
    pub open spec fn migrated(self, now: i64) -> Option<DatabaseView> {
        match self.second().third().fifth(now).sixth(now) {
            Some(database) => Some(database.tenth().recorded()),
            None => None,
        }
    }

    /// The rows as they are stored now.
    pub open spec fn present(self, blob_root: Option<Seq<char>>, now: i64) -> RepositoryView {
        RepositoryView {
            clips: self.clips.map_values(|clip: LegacyClipView| clip.present(now)),
            categories: self.categories.map_values(
                |category: LegacyCategoryView| category.present(now),
            ),
            links: self.links.map_values(|link: LegacyLinkView| link.present(now)),
            blobs: self.blobs,
            blob_root,
        }
    }

    /// The history that a database holds once it is migrated, or why it cannot be opened.
    pub open spec fn history(self, blob_root: Option<Seq<char>>, now: i64) -> Result<
        RepositoryView,
        RepositoryError,
    > {
        match self.migrated(now) {
            Some(database) if database.present(blob_root, now).wf() => Ok(
                database.present(blob_root, now),
            ),
            _ => Err(RepositoryError::ConstraintViolation),
        }
    }
}

impl LegacyClipView {
    pub open spec fn as_text(self) -> LegacyClipView {
        LegacyClipView { payload_kind: PayloadKind::Text, blob_hash: None, ..self }
    }

    pub open spec fn present(self, now: i64) -> ClipRowView {
        ClipRowView {
            id: self.id,
            content: self.content,
            content_hash: self.content_hash,
            content_type: self.content_type,
            domain: self.domain,
            domain_key: self.domain_key,
            page_title: self.page_title,
            created_at: self.created_at.at(now),
            last_copied_at: self.last_copied_at.at(now),
            copy_count: self.copy_count,
            pinned: self.pinned,
            sort_key: self.sort_key,
            payload_kind: self.payload_kind,
            blob_hash: self.blob_hash,
        }
    }
}

impl LegacyCategoryView {
    pub open spec fn present(self, now: i64) -> CategoryRowView {
        CategoryRowView {
            category: CategoryView {
                id: self.id,
                name: self.name,
                color: self.color,
                created_at: self.created_at.at(now),
                sort_order: self.sort_order,
            },
            normalized_name: self.normalized_name,
        }
    }
}

impl LegacyLinkView {
    pub open spec fn present(self, now: i64) -> LinkRowView {
        LinkRowView {
            clip_id: self.clip_id,
            category_id: self.category_id,
            created_at: self.created_at.at(now),
        }
    }
}

fn key_of(clip: &LegacyClip) -> (key: String)
    ensures
        key@ == clip@.key(),
{
    match &clip.domain {
        Some(domain) => domain.clone(),
        None => {
            let nothing = String::new();
            assert(nothing@ =~= Seq::empty());
            nothing
        },
    }
}

fn is_in_slot(clip: &LegacyClip, hash: &str, key: &str) -> (answer: bool)
    ensures
        answer == clip@.in_slot(hash@, key@),
{
    let own = key_of(clip);
    same_text(clip.content_hash.as_str(), hash) && same_text(own.as_str(), key)
}

/// The first clip with this hash and domain, or the number of clips.
fn find_slot(clips: &Vec<LegacyClip>, hash: &str, key: &str) -> (at: usize)
    ensures
        at == slot_of(legacy::legacy_clips(clips@), hash@, key@),
        at <= clips@.len(),
        at < clips@.len() <==> has_slot(legacy::legacy_clips(clips@), hash@, key@),
{
    let ghost views = legacy::legacy_clips(clips@);
    let ghost wanted = |clip: LegacyClipView| clip.in_slot(hash@, key@);
    let mut i: usize = 0;
    while i < clips.len() && !is_in_slot(&clips[i], hash, key)
        invariant
            i <= clips@.len(),
            views == legacy::legacy_clips(clips@),
            wanted == (|clip: LegacyClipView| clip.in_slot(hash@, key@)),
            forall|k: int| 0 <= k < i ==> !wanted(#[trigger] views[k]),
        ensures
            i < clips@.len() ==> wanted(views[i as int]),
        decreases clips@.len() - i,
    {
        assert(views[i as int] == clips@[i as int]@);
        i += 1;
    }
    proof {
        crate::sequences::lemma_is_first_index(views, wanted, i as int);
        if i == clips@.len() && has_slot(views, hash@, key@) {
            let k = choose|k: int|
                0 <= k < views.len() && (#[trigger] views[k]).in_slot(hash@, key@);
            assert(!wanted(views[k]));
        }
    }
    i
}

/// The first clip with this identifier, or the number of clips.
fn find_id(clips: &Vec<LegacyClip>, id: &str) -> (at: usize)
    ensures
        at == position_of(legacy::legacy_clips(clips@), id@),
        at <= clips@.len(),
        at < clips@.len() <==> has_id(legacy::legacy_clips(clips@), id@),
{
    let ghost views = legacy::legacy_clips(clips@);
    let ghost wanted = |clip: LegacyClipView| clip.id == id@;
    let mut i: usize = 0;
    while i < clips.len() && !same_text(clips[i].id.as_str(), id)
        invariant
            i <= clips@.len(),
            views == legacy::legacy_clips(clips@),
            wanted == (|clip: LegacyClipView| clip.id == id@),
            forall|k: int| 0 <= k < i ==> !wanted(#[trigger] views[k]),
        ensures
            i < clips@.len() ==> wanted(views[i as int]),
        decreases clips@.len() - i,
    {
        assert(views[i as int] == clips@[i as int]@);
        i += 1;
    }
    proof {
        crate::sequences::lemma_is_first_index(views, wanted, i as int);
        if i == clips@.len() && has_id(views, id@) {
            let k = choose|k: int| 0 <= k < views.len() && (#[trigger] views[k]).id == id@;
            assert(!wanted(views[k]));
        }
    }
    i
}

fn key_clips(clips: Vec<LegacyClip>) -> (keyed: Vec<LegacyClip>)
    ensures
        legacy::legacy_clips(keyed@) == legacy::legacy_clips(clips@).map_values(
            |clip: LegacyClipView| clip.keyed(),
        ),
{
    let ghost all = clips@;
    let ghost mapped = legacy::legacy_clips(all).map_values(|clip: LegacyClipView| clip.keyed());
    let mut keyed: Vec<LegacyClip> = Vec::new();
    for clip in iter: clips.into_iter()
        invariant
            iter.seq() == all,
            mapped == legacy::legacy_clips(all).map_values(|clip: LegacyClipView| clip.keyed()),
            legacy::legacy_clips(keyed@) =~= mapped.take(iter.index()),
    {
        let domain_key = key_of(&clip);
        let ghost before = keyed@;
        let mut next = clip;
        next.domain_key = domain_key;
        keyed.push(next);
        proof {
            assert(mapped[iter.index()] == next@);
            assert(legacy::legacy_clips(keyed@) =~= legacy::legacy_clips(before).push(next@));
        }
    }
    proof {
        assert(mapped.take(all.len() as int) =~= mapped);
    }
    keyed
}

fn keep_first(clips: Vec<LegacyClip>) -> (kept: Vec<LegacyClip>)
    ensures
        legacy::legacy_clips(kept@) == first_of_each(legacy::legacy_clips(clips@)),
{
    let ghost all = clips@;
    let ghost views = legacy::legacy_clips(all);
    let mut kept: Vec<LegacyClip> = Vec::new();
    for clip in iter: clips.into_iter()
        invariant
            iter.seq() == all,
            views == legacy::legacy_clips(all),
            legacy::legacy_clips(kept@) =~= first_of_each(views.take(iter.index())),
    {
        proof {
            let next = views.take(iter.index() + 1);
            assert(next.drop_last() =~= views.take(iter.index()));
            assert(next.last() == clip@);
        }
        let key = key_of(&clip);
        let at = find_slot(&kept, clip.content_hash.as_str(), key.as_str());
        if at >= kept.len() {
            let ghost before = kept@;
            kept.push(clip);
            proof {
                assert(legacy::legacy_clips(kept@) =~= legacy::legacy_clips(before).push(clip@));
            }
        }
    }
    proof {
        assert(views.take(all.len() as int) =~= views);
    }
    kept
}

fn keep_links(links: Vec<LegacyLink>, clips: &Vec<LegacyClip>) -> (kept: Vec<LegacyLink>)
    ensures
        legacy::legacy_links(kept@) == legacy::legacy_links(links@).filter(
            |link: LegacyLinkView| has_id(legacy::legacy_clips(clips@), link.clip_id),
        ),
{
    let ghost all = links@;
    let ghost keeps = |link: LegacyLinkView| has_id(legacy::legacy_clips(clips@), link.clip_id);
    let mut kept: Vec<LegacyLink> = Vec::new();
    proof {
        reveal(Seq::filter);
        assert(legacy::legacy_links(kept@) =~= legacy::legacy_links(all).take(0).filter(keeps));
    }
    for link in iter: links.into_iter()
        invariant
            iter.seq() == all,
            keeps == (|link: LegacyLinkView|
                has_id(legacy::legacy_clips(clips@), link.clip_id)),
            legacy::legacy_links(kept@) == legacy::legacy_links(all).take(iter.index()).filter(
                keeps,
            ),
    {
        proof {
            crate::sequences::lemma_filter_take(legacy::legacy_links(all), keeps, iter.index());
        }
        let at = find_id(clips, link.clip_id.as_str());
        if at < clips.len() {
            let ghost before = kept@;
            kept.push(link);
            proof {
                assert(legacy::legacy_links(kept@) =~= legacy::legacy_links(before).push(link@));
            }
        }
    }
    proof {
        assert(legacy::legacy_links(all).take(all.len() as int) =~= legacy::legacy_links(all));
    }
    kept
}

fn retime_clips(clips: Vec<LegacyClip>, retiming: Retiming, now: i64) -> (retimed: Vec<LegacyClip>)
    ensures
        legacy::legacy_clips(retimed@) == legacy::legacy_clips(clips@).map_values(
            |clip: LegacyClipView| clip.retimed(retiming, now),
        ),
{
    let ghost all = clips@;
    let ghost mapped = legacy::legacy_clips(all).map_values(
        |clip: LegacyClipView| clip.retimed(retiming, now),
    );
    let mut retimed: Vec<LegacyClip> = Vec::new();
    for clip in iter: clips.into_iter()
        invariant
            iter.seq() == all,
            mapped == legacy::legacy_clips(all).map_values(
                |clip: LegacyClipView| clip.retimed(retiming, now),
            ),
            legacy::legacy_clips(retimed@) =~= mapped.take(iter.index()),
    {
        let ghost before = retimed@;
        let next = LegacyClip {
            id: clip.id,
            content: clip.content,
            content_hash: clip.content_hash,
            content_type: clip.content_type,
            domain: clip.domain,
            domain_key: clip.domain_key,
            page_title: clip.page_title,
            created_at: retime(clip.created_at, retiming, now),
            last_copied_at: retime(clip.last_copied_at, retiming, now),
            copy_count: clip.copy_count,
            pinned: clip.pinned,
            sort_key: clip.sort_key,
            payload_kind: clip.payload_kind,
            blob_hash: clip.blob_hash,
        };
        retimed.push(next);
        proof {
            assert(mapped[iter.index()] == next@);
            assert(legacy::legacy_clips(retimed@) =~= legacy::legacy_clips(before).push(next@));
        }
    }
    proof {
        assert(mapped.take(all.len() as int) =~= mapped);
    }
    retimed
}

fn retime_categories(categories: Vec<LegacyCategory>, retiming: Retiming, now: i64) -> (retimed: Vec<
    LegacyCategory,
>)
    ensures
        legacy::legacy_categories(retimed@) == legacy::legacy_categories(categories@).map_values(
            |category: LegacyCategoryView| category.retimed(retiming, now),
        ),
{
    let ghost all = categories@;
    let ghost mapped = legacy::legacy_categories(all).map_values(
        |category: LegacyCategoryView| category.retimed(retiming, now),
    );
    let mut retimed: Vec<LegacyCategory> = Vec::new();
    for category in iter: categories.into_iter()
        invariant
            iter.seq() == all,
            mapped == legacy::legacy_categories(all).map_values(
                |category: LegacyCategoryView| category.retimed(retiming, now),
            ),
            legacy::legacy_categories(retimed@) =~= mapped.take(iter.index()),
    {
        let ghost before = retimed@;
        let next = LegacyCategory {
            id: category.id,
            name: category.name,
            normalized_name: category.normalized_name,
            color: category.color,
            created_at: retime(category.created_at, retiming, now),
            sort_order: category.sort_order,
        };
        retimed.push(next);
        proof {
            assert(mapped[iter.index()] == next@);
            assert(legacy::legacy_categories(retimed@) =~= legacy::legacy_categories(before).push(
                next@,
            ));
        }
    }
    proof {
        assert(mapped.take(all.len() as int) =~= mapped);
    }
    retimed
}

fn retime_links(links: Vec<LegacyLink>, retiming: Retiming, now: i64) -> (retimed: Vec<LegacyLink>)
    ensures
        legacy::legacy_links(retimed@) == legacy::legacy_links(links@).map_values(
            |link: LegacyLinkView| link.retimed(retiming, now),
        ),
{
    let ghost all = links@;
    let ghost mapped = legacy::legacy_links(all).map_values(
        |link: LegacyLinkView| link.retimed(retiming, now),
    );
    let mut retimed: Vec<LegacyLink> = Vec::new();
    for link in iter: links.into_iter()
        invariant
            iter.seq() == all,
            mapped == legacy::legacy_links(all).map_values(
                |link: LegacyLinkView| link.retimed(retiming, now),
            ),
            legacy::legacy_links(retimed@) =~= mapped.take(iter.index()),
    {
        let ghost before = retimed@;
        let next = LegacyLink {
            clip_id: link.clip_id,
            category_id: link.category_id,
            created_at: retime(link.created_at, retiming, now),
        };
        retimed.push(next);
        proof {
            assert(mapped[iter.index()] == next@);
            assert(legacy::legacy_links(retimed@) =~= legacy::legacy_links(before).push(next@));
        }
    }
    proof {
        assert(mapped.take(all.len() as int) =~= mapped);
    }
    retimed
}

impl LegacyDatabase {
    fn has_version(&self, version: u32) -> (answer: bool)
        ensures
            answer == self@.applied(version),
    {
        let mut i: usize = 0;
        while i < self.versions.len()
            invariant
                i <= self.versions@.len(),
                forall|k: int| 0 <= k < i ==> self.versions@[k] != version,
            decreases self.versions@.len() - i,
        {
            if self.versions[i] == version {
                assert(self.versions@[i as int] == version);
                return true;
            }
            i += 1;
        }
        false
    }

    fn apply_second(self) -> (next: Self)
        ensures
            next@ == self@.second(),
    {
        if self.has_version(2) {
            return self;
        }
        let ghost before = self@;
        let mut next = self;
        let mut clips: Vec<LegacyClip> = Vec::new();
        std::mem::swap(&mut clips, &mut next.clips);
        let keyed = key_clips(clips);
        if next.has_normalized {
            next.clips = keyed;
        } else {
            let kept = keep_first(keyed);
            let mut links: Vec<LegacyLink> = Vec::new();
            std::mem::swap(&mut links, &mut next.links);
            next.links = keep_links(links, &kept);
            next.clips = kept;
        }
        assert(next@ =~= before.second());
        next
    }

    fn apply_third(self) -> (next: Self)
        ensures
            next@ == self@.third(),
    {
        if self.has_version(3) || self.normalized_is_constrained {
            return self;
        }
        let mut next = self;
        next.has_normalized = false;
        next
    }

    fn retime_all(self, retiming: Retiming, now: i64) -> (next: Self)
        ensures
            next@ == self@.retimed(retiming, now),
    {
        LegacyDatabase {
            versions: self.versions,
            has_normalized: self.has_normalized,
            normalized_is_constrained: self.normalized_is_constrained,
            clips: retime_clips(self.clips, retiming, now),
            categories: retime_categories(self.categories, retiming, now),
            links: retime_links(self.links, retiming, now),
            blobs: self.blobs,
        }
    }

    fn apply_fifth(self, now: i64) -> (next: Self)
        ensures
            next@ == self@.fifth(now),
    {
        if self.has_version(5) {
            self
        } else {
            self.retime_all(Retiming::ReadTexts, now)
        }
    }
}

/// What is being gathered from the clips of a hash and a domain.
struct Gathering {
    id: String,
    content: String,
    content_type: ContentType,
    created_at: StoredTime,
    last_copied_at: StoredTime,
    title: Option<(StoredTime, String)>,
    total: i128,
    pinned: bool,
    sort_key: i64,
}

spec fn title_view(title: Option<(StoredTime, String)>) -> Option<(TimeView, Seq<char>)> {
    match title {
        Some((at, title)) => Some((at@, title@)),
        None => None,
    }
}

impl View for Gathering {
    type V = Gathered;

    closed spec fn view(&self) -> Gathered {
        Gathered {
            id: self.id@,
            content: self.content@,
            content_type: self.content_type,
            created_at: self.created_at@,
            last_copied_at: self.last_copied_at@,
            title: title_view(self.title),
            total: self.total as int,
            pinned: self.pinned,
            sort_key: self.sort_key,
        }
    }
}

fn title_of(clip: &LegacyClip) -> (title: Option<(StoredTime, String)>)
    ensures
        title_view(title) == clip@.titled(),
{
    match &clip.page_title {
        Some(title) => {
            if char_len(title.as_str()) > 0 {
                Some((clip.last_copied_at.clone(), title.clone()))
            } else {
                None
            }
        },
        None => None,
    }
}

fn gather_one(clip: &LegacyClip) -> (gathering: Gathering)
    ensures
        gathering@ == clip@.alone(),
{
    Gathering {
        id: clip.id.clone(),
        content: clip.content.clone(),
        content_type: clip.content_type,
        created_at: clip.created_at.clone(),
        last_copied_at: clip.last_copied_at.clone(),
        title: title_of(clip),
        total: clip.copy_count as i128,
        pinned: clip.pinned,
        sort_key: clip.sort_key,
    }
}

impl Gathering {
    fn join(&mut self, clip: &LegacyClip)
        requires
            i128::MIN <= old(self)@.total + clip.copy_count <= i128::MAX,
        ensures
            final(self)@ == old(self)@.joined(clip@),
    {
        if clip.created_at.is_before(&self.created_at) {
            self.id = clip.id.clone();
            self.content = clip.content.clone();
            self.content_type = clip.content_type;
            self.created_at = clip.created_at.clone();
        }
        if self.last_copied_at.is_before(&clip.last_copied_at) {
            self.last_copied_at = clip.last_copied_at.clone();
        }
        match title_of(clip) {
            Some((when, title)) => {
                let older = match &self.title {
                    Some((at, _)) => when.is_before(at),
                    None => false,
                };
                if !older {
                    self.title = Some((when, title));
                }
            },
            None => {},
        }
        self.total = self.total + clip.copy_count as i128;
        self.pinned = self.pinned || clip.pinned;
        if clip.sort_key > self.sort_key {
            self.sort_key = clip.sort_key;
        }
    }
}

fn gather(clips: &Vec<LegacyClip>, hash: &str, key: &str) -> (found: Option<Gathering>)
    ensures
        match found {
            Some(found) => gathered(legacy::legacy_clips(clips@), hash@, key@) == Some(found@),
            None => gathered(legacy::legacy_clips(clips@), hash@, key@) is None,
        },
{
    let ghost views = legacy::legacy_clips(clips@);
    let mut found: Option<Gathering> = None;
    let total: usize = clips.len();
    let mut i: usize = 0;
    while i < total
        invariant
            i <= total,
            total == clips@.len(),
            views == legacy::legacy_clips(clips@),
            match found {
                Some(found) => gathered(views.take(i as int), hash@, key@) == Some(found@)
                    && -(i * 0x8000_0000_0000_0000) <= found@.total <= i * 0x8000_0000_0000_0000,
                None => gathered(views.take(i as int), hash@, key@) is None,
            },
        decreases total - i,
    {
        proof {
            let next = views.take(i + 1);
            assert(next.drop_last() =~= views.take(i as int));
            assert(next.last() == clips@[i as int]@);
        }
        let clip = &clips[i];
        if is_in_slot(clip, hash, key) {
            found = match found {
                Some(gathering) => {
                    let mut gathering = gathering;
                    gathering.join(clip);
                    Some(gathering)
                },
                None => Some(gather_one(clip)),
            };
        }
        i += 1;
    }
    proof {
        assert(views.take(i as int) =~= views);
    }
    found
}

fn merge(gathering: Gathering, hash: &str, key: &str, now: i64) -> (clip: LegacyClip)
    ensures
        clip@ == gathering@.merged(hash@, key@, now),
{
    let copy_count: i64 = if gathering.total > MAX_MERGED_COUNT as i128 {
        MAX_MERGED_COUNT
    } else if gathering.total < 1 {
        0
    } else {
        gathering.total as i64
    };
    LegacyClip {
        id: gathering.id,
        content: gathering.content,
        content_hash: hash.to_owned(),
        content_type: gathering.content_type,
        domain: if char_len(key) == 0 {
            None
        } else {
            Some(key.to_owned())
        },
        domain_key: key.to_owned(),
        page_title: match gathering.title {
            Some((_, title)) => Some(title),
            None => None,
        },
        created_at: retime(gathering.created_at, Retiming::Both, now),
        last_copied_at: retime(gathering.last_copied_at, Retiming::Both, now),
        copy_count,
        pinned: gathering.pinned,
        sort_key: gathering.sort_key,
        payload_kind: PayloadKind::Text,
        blob_hash: None,
    }
}

/// A clip is among those of its hash and domain.
pub(crate) proof fn lemma_gathers(clips: Seq<LegacyClipView>, hash: Seq<char>, key: Seq<char>)
    ensures
        gathered(clips, hash, key) is Some <==> has_slot(clips, hash, key),
    decreases clips.len(),
{
    if clips.len() > 0 {
        let rest = clips.drop_last();
        lemma_gathers(rest, hash, key);
        if has_slot(rest, hash, key) {
            let i = choose|i: int| 0 <= i < rest.len() && (#[trigger] rest[i]).in_slot(hash, key);
            assert(clips[i].in_slot(hash, key));
        }
        if has_slot(clips, hash, key) && !clips.last().in_slot(hash, key) {
            let i = choose|i: int|
                0 <= i < clips.len() && (#[trigger] clips[i]).in_slot(hash, key);
            assert(rest[i].in_slot(hash, key));
        }
        if clips.last().in_slot(hash, key) {
            assert(clips[clips.len() - 1].in_slot(hash, key));
        }
    }
}

/// The first clip of each hash and domain is one of the clips, no two have the same, and every
/// hash and domain has one.
pub(crate) proof fn lemma_first_of_each(clips: Seq<LegacyClipView>)
    ensures
        forall|i: int|
            0 <= i < first_of_each(clips).len() ==> clips.contains(
                #[trigger] first_of_each(clips)[i],
            ),
        forall|i: int, j: int|
            0 <= i < j < first_of_each(clips).len() ==> !(#[trigger] first_of_each(clips)[j]).in_slot(
                (#[trigger] first_of_each(clips)[i]).content_hash,
                first_of_each(clips)[i].key(),
            ),
        forall|i: int|
            0 <= i < clips.len() ==> has_slot(
                first_of_each(clips),
                (#[trigger] clips[i]).content_hash,
                clips[i].key(),
            ),
    decreases clips.len(),
{
    if clips.len() > 0 {
        let rest = clips.drop_last();
        let last = clips.last();
        let kept = first_of_each(rest);
        let all = first_of_each(clips);
        lemma_first_of_each(rest);
        assert forall|i: int| 0 <= i < all.len() implies clips.contains(#[trigger] all[i]) by {
            if i < kept.len() {
                assert(rest.contains(kept[i]));
                let k = choose|k: int| 0 <= k < rest.len() && rest[k] == kept[i];
                assert(clips[k] == all[i]);
            } else {
                assert(clips[clips.len() - 1] == all[i]);
            }
        }
        assert forall|i: int, j: int| 0 <= i < j < all.len() implies !(
        #[trigger] all[j]).in_slot((#[trigger] all[i]).content_hash, all[i].key()) by {
            if j == kept.len() {
                assert(all[i] == kept[i]);
                if all[j].in_slot(all[i].content_hash, all[i].key()) {
                    assert(kept[i].in_slot(last.content_hash, last.key()));
                }
            } else {
                assert(all[i] == kept[i] && all[j] == kept[j]);
            }
        }
        assert forall|i: int| 0 <= i < clips.len() implies has_slot(
            all,
            (#[trigger] clips[i]).content_hash,
            clips[i].key(),
        ) by {
            if i < rest.len() {
                assert(clips[i] == rest[i]);
                assert(has_slot(kept, rest[i].content_hash, rest[i].key()));
                let k = choose|k: int|
                    0 <= k < kept.len() && (#[trigger] kept[k]).in_slot(
                        clips[i].content_hash,
                        clips[i].key(),
                    );
                assert(all[k] == kept[k]);
            } else if !has_slot(kept, last.content_hash, last.key()) {
                assert(all[kept.len() as int] == last);
            }
        }
    }
}

/// Where the first clip of each hash and domain stands.
fn first_positions(clips: &Vec<LegacyClip>) -> (firsts: Vec<usize>)
    ensures
        forall|k: int| 0 <= k < firsts@.len() ==> #[trigger] firsts@[k] < clips@.len(),
        firsts@.map_values(|at: usize| legacy::legacy_clips(clips@)[at as int]) == first_of_each(
            legacy::legacy_clips(clips@),
        ),
{
    let ghost views = legacy::legacy_clips(clips@);
    let ghost show = |at: usize| views[at as int];
    let mut firsts: Vec<usize> = Vec::new();
    let mut i: usize = 0;
    while i < clips.len()
        invariant
            i <= clips@.len(),
            views == legacy::legacy_clips(clips@),
            show == (|at: usize| views[at as int]),
            forall|k: int| 0 <= k < firsts@.len() ==> #[trigger] firsts@[k] < clips@.len(),
            firsts@.map_values(show) =~= first_of_each(views.take(i as int)),
        decreases clips@.len() - i,
    {
        let ghost kept = first_of_each(views.take(i as int));
        proof {
            let next = views.take(i + 1);
            assert(next.drop_last() =~= views.take(i as int));
            assert(next.last() == clips@[i as int]@);
        }
        let clip = &clips[i];
        let key = key_of(clip);
        let mut known = false;
        let mut k: usize = 0;
        while k < firsts.len() && !known
            invariant
                k <= firsts@.len(),
                i < clips@.len(),
                clip == clips@[i as int],
                key@ == clip@.key(),
                views == legacy::legacy_clips(clips@),
                show == (|at: usize| views[at as int]),
                kept == firsts@.map_values(show),
                forall|m: int| 0 <= m < firsts@.len() ==> #[trigger] firsts@[m] < clips@.len(),
                known == exists|m: int|
                    0 <= m < k && (#[trigger] kept[m]).in_slot(clip@.content_hash, clip@.key()),
            decreases firsts@.len() - k,
        {
            assert(kept[k as int] == clips@[firsts@[k as int] as int]@);
            if is_in_slot(&clips[firsts[k]], clip.content_hash.as_str(), key.as_str()) {
                known = true;
            }
            k += 1;
        }
        if !known {
            let ghost before = firsts@;
            firsts.push(i);
            proof {
                assert(firsts@.map_values(show) =~= before.map_values(show).push(clip@));
            }
        }
        i += 1;
    }
    proof {
        assert(views.take(i as int) =~= views);
        assert(firsts@.map_values(|at: usize| legacy::legacy_clips(clips@)[at as int])
            =~= firsts@.map_values(show));
    }
    firsts
}

impl LegacyDatabase {
    /// The merged clips; `None` where a count would not be positive.
    fn merge_clips(&self, now: i64) -> (merged: Option<Vec<LegacyClip>>)
        ensures
            ({
                let clips = first_of_each(self@.clips).map_values(
                    |clip: LegacyClipView| merged_clip(self@.clips, clip, now),
                );
                match merged {
                    Some(merged) => counts_are_positive(clips) && legacy::legacy_clips(merged@)
                        == clips,
                    None => !counts_are_positive(clips),
                }
            }),
    {
        let ghost views = self@.clips;
        let ghost mapped = first_of_each(views).map_values(
            |clip: LegacyClipView| merged_clip(views, clip, now),
        );
        let firsts = first_positions(&self.clips);
        let mut merged: Vec<LegacyClip> = Vec::new();
        let mut k: usize = 0;
        while k < firsts.len()
            invariant
                k <= firsts@.len(),
                views == self@.clips,
                mapped == first_of_each(views).map_values(
                    |clip: LegacyClipView| merged_clip(views, clip, now),
                ),
                forall|m: int| 0 <= m < firsts@.len() ==> #[trigger] firsts@[m] < self.clips@.len(),
                firsts@.map_values(|at: usize| views[at as int]) == first_of_each(views),
                legacy::legacy_clips(merged@) =~= mapped.take(k as int),
                counts_are_positive(mapped.take(k as int)),
            decreases firsts@.len() - k,
        {
            let clip = &self.clips[firsts[k]];
            let key = key_of(clip);
            proof {
                assert(firsts@.map_values(|at: usize| views[at as int])[k as int] == clip@);
                assert(views[firsts@[k as int] as int].in_slot(clip@.content_hash, clip@.key()));
                lemma_gathers(views, clip@.content_hash, clip@.key());
                assert(mapped[k as int] == merged_clip(views, clip@, now));
            }
            let gathering = match gather(&self.clips, clip.content_hash.as_str(), key.as_str()) {
                Some(gathering) => gathering,
                None => return None,
            };
            let taken = merge(gathering, clip.content_hash.as_str(), key.as_str(), now);
            if taken.copy_count < 1 {
                assert(mapped[k as int].copy_count < 1);
                return None;
            }
            let ghost before = merged@;
            merged.push(taken);
            proof {
                assert(legacy::legacy_clips(merged@) =~= legacy::legacy_clips(before).push(
                    taken@,
                ));
                assert forall|m: int| 0 <= m < k + 1 implies (#[trigger] mapped.take(
                    k + 1,
                )[m]).copy_count >= 1 by {
                    if m < k {
                        assert(mapped.take(k as int)[m].copy_count >= 1);
                    }
                }
            }
            k += 1;
        }
        proof {
            assert(firsts@.map_values(|at: usize| views[at as int]).len() == firsts@.len());
            assert(mapped.take(k as int) =~= mapped);
        }
        Some(merged)
    }

    /// The links to the merged clips.
    fn move_links(&self, merged: &Vec<LegacyClip>) -> (moved: Vec<LegacyLink>)
        ensures
            legacy::legacy_links(moved@) == moved_links(
                self@.links,
                self@.clips,
                legacy::legacy_clips(merged@),
            ),
    {
        let ghost views = self@.links;
        let ghost targets = legacy::legacy_clips(merged@);
        let mut moved: Vec<LegacyLink> = Vec::new();
        let mut i: usize = 0;
        while i < self.links.len()
            invariant
                i <= self.links@.len(),
                views == self@.links,
                targets == legacy::legacy_clips(merged@),
                legacy::legacy_links(moved@) =~= moved_links(
                    views.take(i as int),
                    self@.clips,
                    targets,
                ),
            decreases self.links@.len() - i,
        {
            let link = &self.links[i];
            proof {
                let next = views.take(i + 1);
                assert(next.drop_last() =~= views.take(i as int));
                assert(next.last() == link@);
            }
            let from = find_id(&self.clips, link.clip_id.as_str());
            if from < self.clips.len() {
                let key = key_of(&self.clips[from]);
                let to = find_slot(merged, self.clips[from].content_hash.as_str(), key.as_str());
                assert(self@.clips[from as int] == self.clips@[from as int]@);
                if to < merged.len() {
                    assert(targets[to as int] == merged@[to as int]@);
                    if !is_linked(
                        &moved,
                        merged[to].id.as_str(),
                        link.category_id.as_str(),
                    ) {
                        let ghost before = moved@;
                        let next = LegacyLink {
                            clip_id: merged[to].id.clone(),
                            category_id: link.category_id.clone(),
                            created_at: link.created_at.clone(),
                        };
                        moved.push(next);
                        proof {
                            assert(legacy::legacy_links(moved@) =~= legacy::legacy_links(
                                before,
                            ).push(next@));
                        }
                    }
                }
            }
            i += 1;
        }
        proof {
            assert(views.take(i as int) =~= views);
        }
        moved
    }

    fn knows_categories_of(&self, links: &Vec<LegacyLink>) -> (answer: bool)
        ensures
            answer == categories_exist(legacy::legacy_links(links@), self@.categories),
    {
        let ghost views = legacy::legacy_links(links@);
        let mut i: usize = 0;
        while i < links.len()
            invariant
                i <= links@.len(),
                views == legacy::legacy_links(links@),
                forall|k: int|
                    0 <= k < i ==> has_category(self@.categories, (#[trigger] views[k]).category_id),
            decreases links@.len() - i,
        {
            assert(views[i as int] == links@[i as int]@);
            let mut known = false;
            let mut k: usize = 0;
            while k < self.categories.len() && !known
                invariant
                    k <= self.categories@.len(),
                    i < links@.len(),
                    views == legacy::legacy_links(links@),
                    known == exists|m: int|
                        0 <= m < k && (#[trigger] self@.categories[m]).id
                            == links@[i as int].category_id@,
                decreases self.categories@.len() - k,
            {
                assert(self@.categories[k as int] == self.categories@[k as int]@);
                if same_text(self.categories[k].id.as_str(), links[i].category_id.as_str()) {
                    known = true;
                }
                k += 1;
            }
            if !known {
                assert(!has_category(self@.categories, views[i as int].category_id));
                return false;
            }
            i += 1;
        }
        true
    }

    fn rebuild(self, now: i64) -> (next: Option<Self>)
        ensures
            match next {
                Some(next) => self@.rebuilt(now) == Some(next@),
                None => self@.rebuilt(now) is None,
            },
    {
        let clips = match self.merge_clips(now) {
            Some(clips) => clips,
            None => return None,
        };
        let links = self.move_links(&clips);
        if !self.knows_categories_of(&links) {
            return None;
        }
        let ghost before = self@;
        let mut next = self;
        next.clips = clips;
        next.links = links;
        next.has_normalized = false;
        next.normalized_is_constrained = false;
        let settled = next.retime_all(Retiming::Settle, now);
        assert(before.rebuilt(now) == Some(settled@));
        Some(settled)
    }

    fn apply_sixth(self, now: i64) -> (next: Option<Self>)
        ensures
            match next {
                Some(next) => self@.sixth(now) == Some(next@),
                None => self@.sixth(now) is None,
            },
    {
        if self.has_version(6) {
            Some(self.retime_all(Retiming::Settle, now))
        } else if self.has_normalized {
            self.rebuild(now)
        } else {
            let mut next = self;
            next.normalized_is_constrained = false;
            Some(next.retime_all(Retiming::ScaleSeconds, now))
        }
    }

    fn apply_tenth(self) -> (next: Self)
        ensures
            next@ == self@.tenth(),
    {
        if self.has_version(10) {
            return self;
        }
        let ghost before = self@;
        let ghost all = self.clips@;
        let ghost mapped = before.clips.map_values(|clip: LegacyClipView| clip.as_text());
        let mut next = self;
        let mut clips: Vec<LegacyClip> = Vec::new();
        std::mem::swap(&mut clips, &mut next.clips);
        let mut texts: Vec<LegacyClip> = Vec::new();
        for clip in iter: clips.into_iter()
            invariant
                iter.seq() == all,
                mapped == legacy::legacy_clips(all).map_values(
                    |clip: LegacyClipView| clip.as_text(),
                ),
                legacy::legacy_clips(texts@) =~= mapped.take(iter.index()),
        {
            let ghost seen = texts@;
            let mut text = clip;
            text.payload_kind = PayloadKind::Text;
            text.blob_hash = None;
            texts.push(text);
            proof {
                assert(mapped[iter.index()] == text@);
                assert(legacy::legacy_clips(texts@) =~= legacy::legacy_clips(seen).push(text@));
            }
        }
        next.clips = texts;
        proof {
            assert(mapped.take(all.len() as int) =~= mapped);
            assert(next@ =~= before.tenth());
        }
        next
    }

    fn record(self) -> (next: Self)
        ensures
            next@ == self@.recorded(),
    {
        let ghost before = self@;
        let mut next = self;
        let mut version: u32 = 0;
        while version < LATEST_VERSION
            invariant
                version <= LATEST_VERSION,
                next@ == (DatabaseView {
                    versions: with_versions(before.versions, version as nat),
                    ..before
                }),
            decreases LATEST_VERSION - version,
        {
            version += 1;
            if !next.has_version(version) {
                next.versions.push(version);
            }
        }
        next
    }

    /// Applies the migrations that are missing; `None` where a rule would be broken.
    pub fn run_migrations(self, now: i64) -> (next: Option<Self>)
        ensures
            match next {
                Some(next) => self@.migrated(now) == Some(next@),
                None => self@.migrated(now) is None,
            },
    {
        match self.apply_second().apply_third().apply_fifth(now).apply_sixth(now) {
            Some(next) => Some(next.apply_tenth().record()),
            None => None,
        }
    }
}

fn is_linked(links: &Vec<LegacyLink>, clip_id: &str, category_id: &str) -> (answer: bool)
    ensures
        answer == has_pair(legacy::legacy_links(links@), clip_id@, category_id@),
{
    let ghost views = legacy::legacy_links(links@);
    let mut i: usize = 0;
    while i < links.len()
        invariant
            i <= links@.len(),
            views == legacy::legacy_links(links@),
            forall|k: int|
                0 <= k < i ==> !((#[trigger] views[k]).clip_id == clip_id@ && views[k].category_id
                    == category_id@),
        decreases links@.len() - i,
    {
        assert(views[i as int] == links@[i as int]@);
        if same_text(links[i].clip_id.as_str(), clip_id) && same_text(
            links[i].category_id.as_str(),
            category_id,
        ) {
            return true;
        }
        i += 1;
    }
    false
}

fn present_clips(clips: Vec<LegacyClip>, now: i64) -> (rows: Vec<ClipRow>)
    ensures
        rows::clip_views(rows@) == legacy::legacy_clips(clips@).map_values(
            |clip: LegacyClipView| clip.present(now),
        ),
{
    let ghost all = clips@;
    let ghost mapped = legacy::legacy_clips(all).map_values(
        |clip: LegacyClipView| clip.present(now),
    );
    let mut rows: Vec<ClipRow> = Vec::new();
    for clip in iter: clips.into_iter()
        invariant
            iter.seq() == all,
            mapped == legacy::legacy_clips(all).map_values(
                |clip: LegacyClipView| clip.present(now),
            ),
            rows::clip_views(rows@) =~= mapped.take(iter.index()),
    {
        let created_at = number_at(&clip.created_at, now);
        let last_copied_at = number_at(&clip.last_copied_at, now);
        let ghost before = rows@;
        let row = ClipRow {
            id: clip.id,
            content: clip.content,
            content_hash: clip.content_hash,
            content_type: clip.content_type,
            domain: clip.domain,
            domain_key: clip.domain_key,
            page_title: clip.page_title,
            created_at,
            last_copied_at,
            copy_count: clip.copy_count,
            pinned: clip.pinned,
            sort_key: clip.sort_key,
            payload_kind: clip.payload_kind,
            blob_hash: clip.blob_hash,
        };
        rows.push(row);
        proof {
            assert(mapped[iter.index()] == row@);
            assert(rows::clip_views(rows@) =~= rows::clip_views(before).push(row@));
        }
    }
    proof {
        assert(mapped.take(all.len() as int) =~= mapped);
    }
    rows
}

fn present_categories(categories: Vec<LegacyCategory>, now: i64) -> (rows: Vec<CategoryRow>)
    ensures
        rows::category_views(rows@) == legacy::legacy_categories(categories@).map_values(
            |category: LegacyCategoryView| category.present(now),
        ),
{
    let ghost all = categories@;
    let ghost mapped = legacy::legacy_categories(all).map_values(
        |category: LegacyCategoryView| category.present(now),
    );
    let mut rows: Vec<CategoryRow> = Vec::new();
    for category in iter: categories.into_iter()
        invariant
            iter.seq() == all,
            mapped == legacy::legacy_categories(all).map_values(
                |category: LegacyCategoryView| category.present(now),
            ),
            rows::category_views(rows@) =~= mapped.take(iter.index()),
    {
        let created_at = number_at(&category.created_at, now);
        let ghost before = rows@;
        let row = CategoryRow {
            category: Category {
                id: category.id,
                name: category.name,
                color: category.color,
                created_at,
                sort_order: category.sort_order,
            },
            normalized_name: category.normalized_name,
        };
        rows.push(row);
        proof {
            assert(mapped[iter.index()] == row@);
            assert(rows::category_views(rows@) =~= rows::category_views(before).push(row@));
        }
    }
    proof {
        assert(mapped.take(all.len() as int) =~= mapped);
    }
    rows
}

fn present_links(links: Vec<LegacyLink>, now: i64) -> (rows: Vec<LinkRow>)
    ensures
        rows::link_views(rows@) == legacy::legacy_links(links@).map_values(
            |link: LegacyLinkView| link.present(now),
        ),
{
    let ghost all = links@;
    let ghost mapped = legacy::legacy_links(all).map_values(
        |link: LegacyLinkView| link.present(now),
    );
    let mut rows: Vec<LinkRow> = Vec::new();
    for link in iter: links.into_iter()
        invariant
            iter.seq() == all,
            mapped == legacy::legacy_links(all).map_values(
                |link: LegacyLinkView| link.present(now),
            ),
            rows::link_views(rows@) =~= mapped.take(iter.index()),
    {
        let created_at = number_at(&link.created_at, now);
        let ghost before = rows@;
        let row = LinkRow { clip_id: link.clip_id, category_id: link.category_id, created_at };
        rows.push(row);
        proof {
            assert(mapped[iter.index()] == row@);
            assert(rows::link_views(rows@) =~= rows::link_views(before).push(row@));
        }
    }
    proof {
        assert(mapped.take(all.len() as int) =~= mapped);
    }
    rows
}

/// A text that SQLite takes for the present moment.
pub open spec fn stands_for_now(value: Seq<char>) -> bool {
    let seen = text::ascii_lowercase(text::before_nul(value));
    seen == "now"@ || seen == "subsec"@ || seen == "subsecond"@
}

fn means_now(value: &str) -> (answer: bool)
    ensures
        answer == stands_for_now(value@),
{
    let seen = to_ascii_lower(until_nul(value).as_str());
    same_text(seen.as_str(), "now") || same_text(seen.as_str(), "subsec") || same_text(
        seen.as_str(),
        "subsecond",
    )
}

/// The seconds since the Unix epoch that SQLite reads from a text, if it reads any; `None` if it
/// cannot be asked about the text.
pub uninterp spec fn sqlite_seconds(value: Seq<char>) -> Option<Option<i64>>;

/// What a query has answered, if it did.
pub open spec fn answer_of(result: Result<Option<i64>, rusqlite::Error>) -> Option<Option<i64>> {
    match result {
        Ok(seconds) => Some(seconds),
        Err(_) => None,
    }
}

/// `rusqlite::Connection::query_row` with SQLite's `unixepoch`: the result depends on the text
/// alone, as long as memory lasts, unless the text stands for the present moment.
#[verifier::external_body]
fn unix_seconds(value: &str) -> (result: Result<Option<i64>, rusqlite::Error>)
    requires
        !stands_for_now(value@),
    ensures
        answer_of(result) == sqlite_seconds(value@),
{
    let connection = rusqlite::Connection::open_in_memory()?;
    connection.query_row("SELECT unixepoch(?1)", [value], |row| row.get(0))
}

/// The milliseconds for a text, once the seconds are known.
pub open spec fn millis_for(value: Seq<char>, seconds: Option<i64>, now: i64) -> Option<i64> {
    if stands_for_now(value) {
        Some(now)
    } else {
        match seconds {
            Some(seconds) if i64::MIN <= seconds * 1000 <= i64::MAX => Some(
                (seconds * 1000) as i64,
            ),
            _ => None,
        }
    }
}

impl TimeView {
    /// With the text read.
    pub open spec fn read(self, now: i64) -> TimeView {
        match self {
            TimeView::Text { text, .. } => TimeView::Text {
                text,
                millis: millis_for(text, sqlite_seconds(text)->0, now),
            },
            _ => self,
        }
    }

    /// The moment is stored as a text that SQLite cannot be asked about.
    pub open spec fn is_unreadable(self) -> bool {
        self is Text && !stands_for_now(self->Text_text) && sqlite_seconds(self->Text_text) is None
    }
}

impl DatabaseView {
    /// SQLite cannot be asked about some moment.
    pub open spec fn is_unreadable(self) -> bool {
        ||| exists|i: int|
            0 <= i < self.clips.len() && ((#[trigger] self.clips[i]).created_at.is_unreadable()
                || self.clips[i].last_copied_at.is_unreadable())
        ||| exists|i: int|
            0 <= i < self.categories.len() && (
            #[trigger] self.categories[i]).created_at.is_unreadable()
        ||| exists|i: int|
            0 <= i < self.links.len() && (#[trigger] self.links[i]).created_at.is_unreadable()
    }
}

impl DatabaseView {
    /// With all moments that are stored as texts read.
    pub open spec fn read(self, now: i64) -> DatabaseView {
        DatabaseView {
            clips: self.clips.map_values(
                |clip: LegacyClipView|
                    LegacyClipView {
                        created_at: clip.created_at.read(now),
                        last_copied_at: clip.last_copied_at.read(now),
                        ..clip
                    },
            ),
            categories: self.categories.map_values(
                |category: LegacyCategoryView|
                    LegacyCategoryView { created_at: category.created_at.read(now), ..category },
            ),
            links: self.links.map_values(
                |link: LegacyLinkView|
                    LegacyLinkView { created_at: link.created_at.read(now), ..link },
            ),
            ..self
        }
    }
}

fn read_time(time: StoredTime, now: i64) -> (result: Result<StoredTime, RepositoryError>)
    ensures
        match result {
            Ok(read) => read@ == time@.read(now) && !time@.is_unreadable(),
            Err(error) => error == RepositoryError::DatabaseFailed && time@.is_unreadable(),
        },
{
    match time {
        StoredTime::Number(number) => Ok(StoredTime::Number(number)),
        StoredTime::Millis(millis) => Ok(StoredTime::Millis(millis)),
        StoredTime::Text { text, .. } => {
            if means_now(text.as_str()) {
                return Ok(StoredTime::Text { text, millis: Some(now) });
            }
            match unix_seconds(text.as_str()) {
                Ok(seconds) => {
                    let millis = match seconds {
                        Some(seconds) => seconds.checked_mul(1000),
                        None => None,
                    };
                    Ok(StoredTime::Text { text, millis })
                },
                Err(_) => Err(RepositoryError::DatabaseFailed),
            }
        },
    }
}

impl LegacyDatabase {
    /// Reads the moments that are stored as texts.
    fn read_times(self, now: i64) -> (result: Result<Self, RepositoryError>)
        ensures
            match result {
                Ok(read) => read@ == self@.read(now) && !self@.is_unreadable(),
                Err(error) => error == RepositoryError::DatabaseFailed && self@.is_unreadable(),
            },
    {
        let ghost before = self@;
        let ghost read_clip = |clip: LegacyClipView|
            LegacyClipView {
                created_at: clip.created_at.read(now),
                last_copied_at: clip.last_copied_at.read(now),
                ..clip
            };
        let ghost read_category = |category: LegacyCategoryView|
            LegacyCategoryView { created_at: category.created_at.read(now), ..category };
        let ghost read_link = |link: LegacyLinkView|
            LegacyLinkView { created_at: link.created_at.read(now), ..link };
        let ghost all_clips = self.clips@;
        let ghost all_categories = self.categories@;
        let ghost all_links = self.links@;
        let ghost clip_target = before.clips.map_values(read_clip);
        let ghost category_target = before.categories.map_values(read_category);
        let ghost link_target = before.links.map_values(read_link);
        let mut clips: Vec<LegacyClip> = Vec::new();
        for clip in iter: self.clips.into_iter()
            invariant
                iter.seq() == all_clips,
                before.clips == legacy::legacy_clips(all_clips),
                clip_target == legacy::legacy_clips(all_clips).map_values(read_clip),
                read_clip == (|clip: LegacyClipView|
                    LegacyClipView {
                        created_at: clip.created_at.read(now),
                        last_copied_at: clip.last_copied_at.read(now),
                        ..clip
                    }),
                legacy::legacy_clips(clips@) =~= clip_target.take(iter.index()),
                forall|i: int|
                    0 <= i < iter.index() ==> !(
                    #[trigger] before.clips[i]).created_at.is_unreadable()
                        && !before.clips[i].last_copied_at.is_unreadable(),
        {
            let ghost seen = clips@;
            assert(before.clips[iter.index()] == clip@);
            let mut next = clip;
            let mut created_at = StoredTime::Number(0);
            std::mem::swap(&mut created_at, &mut next.created_at);
            let mut last_copied_at = StoredTime::Number(0);
            std::mem::swap(&mut last_copied_at, &mut next.last_copied_at);
            match read_time(created_at, now) {
                Ok(read) => {
                    next.created_at = read;
                },
                Err(error) => return Err(error),
            }
            match read_time(last_copied_at, now) {
                Ok(read) => {
                    next.last_copied_at = read;
                },
                Err(error) => return Err(error),
            }
            clips.push(next);
            proof {
                assert(clip_target[iter.index()] == next@);
                assert(legacy::legacy_clips(clips@) =~= legacy::legacy_clips(seen).push(next@));
            }
        }
        let mut categories: Vec<LegacyCategory> = Vec::new();
        for category in iter: self.categories.into_iter()
            invariant
                iter.seq() == all_categories,
                before.categories == legacy::legacy_categories(all_categories),
                category_target == legacy::legacy_categories(all_categories).map_values(
                    read_category,
                ),
                read_category == (|category: LegacyCategoryView|
                    LegacyCategoryView { created_at: category.created_at.read(now), ..category }),
                legacy::legacy_categories(categories@) =~= category_target.take(iter.index()),
                forall|i: int|
                    0 <= i < iter.index() ==> !(
                    #[trigger] before.categories[i]).created_at.is_unreadable(),
        {
            let ghost seen = categories@;
            assert(before.categories[iter.index()] == category@);
            let created_at = match read_time(category.created_at, now) {
                Ok(read) => read,
                Err(error) => return Err(error),
            };
            let next = LegacyCategory {
                id: category.id,
                name: category.name,
                normalized_name: category.normalized_name,
                color: category.color,
                created_at,
                sort_order: category.sort_order,
            };
            categories.push(next);
            proof {
                assert(category_target[iter.index()] == next@);
                assert(legacy::legacy_categories(categories@) =~= legacy::legacy_categories(
                    seen,
                ).push(next@));
            }
        }
        let mut links: Vec<LegacyLink> = Vec::new();
        for link in iter: self.links.into_iter()
            invariant
                iter.seq() == all_links,
                before.links == legacy::legacy_links(all_links),
                link_target == legacy::legacy_links(all_links).map_values(read_link),
                read_link == (|link: LegacyLinkView|
                    LegacyLinkView { created_at: link.created_at.read(now), ..link }),
                legacy::legacy_links(links@) =~= link_target.take(iter.index()),
                forall|i: int|
                    0 <= i < iter.index() ==> !(
                    #[trigger] before.links[i]).created_at.is_unreadable(),
        {
            let ghost seen = links@;
            assert(before.links[iter.index()] == link@);
            let created_at = match read_time(link.created_at, now) {
                Ok(read) => read,
                Err(error) => return Err(error),
            };
            let next = LegacyLink {
                clip_id: link.clip_id,
                category_id: link.category_id,
                created_at,
            };
            links.push(next);
            proof {
                assert(link_target[iter.index()] == next@);
                assert(legacy::legacy_links(links@) =~= legacy::legacy_links(seen).push(next@));
            }
        }
        let read = LegacyDatabase {
            versions: self.versions,
            has_normalized: self.has_normalized,
            normalized_is_constrained: self.normalized_is_constrained,
            clips,
            categories,
            links,
            blobs: self.blobs,
        };
        proof {
            assert(clip_target.take(all_clips.len() as int) =~= clip_target);
            assert(category_target.take(all_categories.len() as int) =~= category_target);
            assert(link_target.take(all_links.len() as int) =~= link_target);
            assert(read@ =~= before.read(now));
        }
        Ok(read)
    }
}

pub open spec fn repository_view(result: Result<Repository, RepositoryError>) -> Result<
    RepositoryView,
    RepositoryError,
> {
    match result {
        Ok(repository) => Ok(repository@),
        Err(error) => Err(error),
    }
}

impl Repository {
    /// Opens a database whose stored moments have been read.
    pub fn migrate_read(database: LegacyDatabase, blob_store: Option<BlobStore>, now: i64) -> (result:
        Result<Repository, RepositoryError>)
        ensures
            repository_view(result) == database@.history(super::root_of(blob_store), now),
            result matches Ok(repository) ==> repository@.wf(),
    {
        let migrated = match database.run_migrations(now) {
            Some(migrated) => migrated,
            None => return Err(RepositoryError::ConstraintViolation),
        };
        let ghost view = migrated@;
        let clips = present_clips(migrated.clips, now);
        let categories = present_categories(migrated.categories, now);
        let links = present_links(migrated.links, now);
        proof {
            assert(RepositoryView {
                clips: rows::clip_views(clips@),
                categories: rows::category_views(categories@),
                links: rows::link_views(links@),
                blobs: rows::blob_views(migrated.blobs@),
                blob_root: super::root_of(blob_store),
            } =~= view.present(super::root_of(blob_store), now));
        }
        Repository::open(clips, categories, links, migrated.blobs, blob_store)
    }

    /// Opens a database of an earlier version. It fails where a stored rule is broken, or where
    /// SQLite cannot be asked for a moment that is stored as a text.
    pub fn migrate(database: LegacyDatabase, blob_store: Option<BlobStore>, now: i64) -> (result:
        Result<Repository, RepositoryError>)
        ensures
            repository_view(result) == (if database@.is_unreadable() {
                Err(RepositoryError::DatabaseFailed)
            } else {
                database@.read(now).history(super::root_of(blob_store), now)
            }),
            result matches Ok(repository) ==> repository@.wf(),
    {
        match database.read_times(now) {
            Ok(read) => Repository::migrate_read(read, blob_store, now),
            Err(error) => Err(error),
        }
    }
}

/// Recording migrations keeps what is recorded, and records each.
pub(crate) proof fn lemma_with_versions(versions: Seq<u32>, count: nat)
    requires
        count <= LATEST_VERSION,
    ensures
        forall|version: u32|
            versions.contains(version) || 1 <= version <= count <==> #[trigger] with_versions(
                versions,
                count,
            ).contains(version),
        (forall|version: u32| 1 <= version <= count ==> versions.contains(version))
            ==> with_versions(versions, count) == versions,
    decreases count,
{
    if count > 0 {
        lemma_with_versions(versions, (count - 1) as nat);
        let before = with_versions(versions, (count - 1) as nat);
        let all = with_versions(versions, count);
        assert forall|version: u32|
            versions.contains(version) || 1 <= version <= count <==> #[trigger] all.contains(
                version,
            ) by {
            assert(versions.contains(version) || 1 <= version <= count - 1 <==> before.contains(
                version,
            ));
            if before.contains(version) {
                let i = choose|i: int| 0 <= i < before.len() && before[i] == version;
                assert(all[i] == version);
            }
            if all.contains(version) {
                let i = choose|i: int| 0 <= i < all.len() && all[i] == version;
                if i < before.len() {
                    assert(before[i] == version);
                }
            }
            if version == count && !before.contains(version) {
                assert(all[before.len() as int] == version);
            }
        }
    }
}

/// Every migration that is run is recorded, and the column with the normalized content goes,
/// unless the sixth migration was recorded before.
pub proof fn migrating_records_every_migration(database: DatabaseView, now: i64, version: u32)
    requires
        database.migrated(now) is Some,
        1 <= version <= LATEST_VERSION,
    ensures
        database.migrated(now)->0.applied(version),
        !database.applied(6) ==> !database.migrated(now)->0.has_normalized,
{
    lemma_with_versions(database.versions, LATEST_VERSION as nat);
}

/// A database that has been migrated stays as it is, whenever it is migrated again.
pub proof fn migrating_again_changes_nothing(database: DatabaseView, now: i64, later: i64)
    requires
        database.migrated(now) is Some,
    ensures
        database.migrated(now)->0.migrated(later) == database.migrated(now),
{
    let timed = database.second().third().fifth(now).sixth(now)->0;
    let next = database.migrated(now)->0;
    lemma_with_versions(database.versions, LATEST_VERSION as nat);
    lemma_with_versions(next.versions, LATEST_VERSION as nat);
    assert forall|i: int| 0 <= i < next.clips.len() implies (#[trigger] next.clips[i]).retimed(
        Retiming::Settle,
        later,
    ) == next.clips[i] by {
        assert(next.clips[i].created_at == timed.clips[i].created_at);
        assert(next.clips[i].last_copied_at == timed.clips[i].last_copied_at);
    }
    assert(next.retimed(Retiming::Settle, later) =~= next);
    assert(next.second().third().fifth(later) == next);
    assert(next.tenth() == next);
}

/// What is gathered from clips accounts for each of them.
proof fn lemma_gathered_accounts_for(
    clips: Seq<LegacyClipView>,
    hash: Seq<char>,
    key: Seq<char>,
    i: int,
)
    requires
        0 <= i < clips.len(),
        clips[i].in_slot(hash, key),
        counts_are_positive(clips),
    ensures
        gathered(clips, hash, key) is Some,
        clips[i].pinned ==> gathered(clips, hash, key)->0.pinned,
        gathered(clips, hash, key)->0.sort_key >= clips[i].sort_key,
        gathered(clips, hash, key)->0.total >= clips[i].copy_count,
    decreases clips.len(),
{
    let rest = clips.drop_last();
    assert forall|k: int| 0 <= k < rest.len() implies (#[trigger] rest[k]).copy_count >= 1 by {
        assert(rest[k] == clips[k]);
    }
    if i < rest.len() {
        assert(rest[i] == clips[i]);
        lemma_gathered_accounts_for(rest, hash, key, i);
        assert(clips.last() == clips[clips.len() - 1]);
        assert(clips.last().copy_count >= 1);
    } else {
        lemma_gathers(rest, hash, key);
        if has_slot(rest, hash, key) {
            let k = choose|k: int| 0 <= k < rest.len() && (#[trigger] rest[k]).in_slot(hash, key);
            lemma_gathered_accounts_for(rest, hash, key, k);
        }
    }
}

/// A merged clip has the hash and domain that it was gathered for.
pub(crate) proof fn lemma_merged_slot(gathered: Gathered, hash: Seq<char>, key: Seq<char>, now: i64)
    ensures
        gathered.merged(hash, key, now).in_slot(hash, key),
        gathered.merged(hash, key, now).content_hash == hash,
        gathered.merged(hash, key, now).key() == key,
{
    assert(gathered.merged(hash, key, now).key() =~= key);
}

/// A merged clip stands for another: it has its hash and domain, is pinned if the other was, and
/// counts at least its copies, as far as counts go.
pub open spec fn takes_place_of(merged: LegacyClipView, clip: LegacyClipView) -> bool {
    &&& merged.in_slot(clip.content_hash, clip.key())
    &&& clip.pinned ==> merged.pinned
    &&& merged.sort_key >= clip.sort_key
    &&& merged.copy_count >= clip.copy_count || merged.copy_count == MAX_MERGED_COUNT
}

/// Merging keeps, for every clip, one with its hash and domain, which is pinned if it was and
/// counts at least its copies, as far as counts go.
pub proof fn merging_keeps_every_clip(database: DatabaseView, now: i64, i: int)
    requires
        0 <= i < database.clips.len(),
        counts_are_positive(database.clips),
        database.rebuilt(now) is Some,
    ensures
        exists|k: int|
            0 <= k < database.rebuilt(now)->0.clips.len() && takes_place_of(
                #[trigger] database.rebuilt(now)->0.clips[k],
                database.clips[i],
            ),
{
    let clips = database.clips;
    let clip = clips[i];
    let firsts = first_of_each(clips);
    let merged = database.rebuilt(now)->0.clips;
    lemma_first_of_each(clips);
    assert(has_slot(firsts, clip.content_hash, clip.key()));
    let k = choose|k: int|
        0 <= k < firsts.len() && (#[trigger] firsts[k]).in_slot(clip.content_hash, clip.key());
    assert(merged[k] == merged_clip(clips, firsts[k], now));
    lemma_gathered_accounts_for(clips, clip.content_hash, clip.key(), i);
    let all = gathered(clips, clip.content_hash, clip.key())->0;
    lemma_merged_slot(all, clip.content_hash, clip.key(), now);
    assert(takes_place_of(database.rebuilt(now)->0.clips[k], clip));
}

/// After merging no two clips have the same hash and domain.
pub proof fn merged_clips_are_distinct(database: DatabaseView, now: i64, i: int, j: int)
    requires
        database.rebuilt(now) is Some,
        0 <= i < j < database.rebuilt(now)->0.clips.len(),
    ensures
        !database.rebuilt(now)->0.clips[j].in_slot(
            database.rebuilt(now)->0.clips[i].content_hash,
            database.rebuilt(now)->0.clips[i].key(),
        ),
{
    let firsts = first_of_each(database.clips);
    let merged = database.rebuilt(now)->0.clips;
    lemma_first_of_each(database.clips);
    assert(merged[i] == merged_clip(database.clips, firsts[i], now));
    assert(merged[j] == merged_clip(database.clips, firsts[j], now));
    assert(!firsts[j].in_slot(firsts[i].content_hash, firsts[i].key()));
    let (a, b) = (firsts[i], firsts[j]);
    lemma_merged_slot(
        gathered(database.clips, a.content_hash, a.key())->0,
        a.content_hash,
        a.key(),
        now,
    );
    lemma_merged_slot(
        gathered(database.clips, b.content_hash, b.key())->0,
        b.content_hash,
        b.key(),
        now,
    );
}

/// A link is kept when links are moved.
proof fn lemma_link_is_moved(
    links: Seq<LegacyLinkView>,
    clips: Seq<LegacyClipView>,
    merged: Seq<LegacyClipView>,
    i: int,
)
    requires
        0 <= i < links.len(),
        position_of(clips, links[i].clip_id) < clips.len(),
        ({
            let clip = clips[position_of(clips, links[i].clip_id)];
            slot_of(merged, clip.content_hash, clip.key()) < merged.len()
        }),
    ensures
        ({
            let clip = clips[position_of(clips, links[i].clip_id)];
            has_pair(
                moved_links(links, clips, merged),
                merged[slot_of(merged, clip.content_hash, clip.key())].id,
                links[i].category_id,
            )
        }),
    decreases links.len(),
{
    let rest = links.drop_last();
    let before = moved_links(rest, clips, merged);
    let all = moved_links(links, clips, merged);
    let clip = clips[position_of(clips, links[i].clip_id)];
    let id = merged[slot_of(merged, clip.content_hash, clip.key())].id;
    if i < rest.len() {
        assert(rest[i] == links[i]);
        lemma_link_is_moved(rest, clips, merged, i);
        let k = choose|k: int|
            0 <= k < before.len() && (#[trigger] before[k]).clip_id == id && before[k].category_id
                == links[i].category_id;
        assert(all[k] == before[k]);
    } else if has_pair(before, id, links[i].category_id) {
        assert(all == before);
    } else {
        assert(all[before.len() as int].clip_id == id);
    }
}

/// Merging keeps the categories of every clip: the clip that takes its place has them.
pub proof fn merging_keeps_every_link(database: DatabaseView, now: i64, i: int)
    requires
        database.rebuilt(now) is Some,
        0 <= i < database.links.len(),
        has_id(database.clips, database.links[i].clip_id),
    ensures
        ({
            let clip = database.clips[position_of(database.clips, database.links[i].clip_id)];
            let next = database.rebuilt(now)->0;
            let to = slot_of(next.clips, clip.content_hash, clip.key());
            &&& 0 <= to < next.clips.len()
            &&& next.clips[to].in_slot(clip.content_hash, clip.key())
            &&& has_pair(next.links, next.clips[to].id, database.links[i].category_id)
        }),
{
    let clips = database.clips;
    let id = database.links[i].clip_id;
    let wanted = |clip: LegacyClipView| clip.id == id;
    crate::sequences::lemma_first_index(clips, wanted);
    let known = choose|k: int| 0 <= k < clips.len() && (#[trigger] clips[k]).id == id;
    assert(wanted(clips[known]));
    let from = position_of(clips, id);
    let clip = clips[from];
    let firsts = first_of_each(clips);
    let merged = database.rebuilt(now)->0.clips;
    lemma_first_of_each(clips);
    assert(has_slot(firsts, clips[from].content_hash, clips[from].key()));
    let k = choose|k: int|
        0 <= k < firsts.len() && (#[trigger] firsts[k]).in_slot(clip.content_hash, clip.key());
    assert(merged[k] == merged_clip(clips, firsts[k], now));
    let fits = |other: LegacyClipView| other.in_slot(clip.content_hash, clip.key());
    crate::sequences::lemma_first_index(merged, fits);
    let all = gathered(clips, clip.content_hash, clip.key())->0;
    lemma_merged_slot(all, clip.content_hash, clip.key(), now);
    assert(fits(merged[k]));
    let plain = firsts.map_values(|clip: LegacyClipView| merged_clip(clips, clip, now));
    assert(plain =~= merged);
    lemma_link_is_moved(database.links, clips, merged, i);
    let moved = moved_links(database.links, clips, merged);
    let next = database.rebuilt(now)->0;
    let to = slot_of(merged, clip.content_hash, clip.key());
    let at = choose|at: int|
        0 <= at < moved.len() && (#[trigger] moved[at]).clip_id == merged[to].id
            && moved[at].category_id == database.links[i].category_id;
    assert(next.links[at].clip_id == moved[at].clip_id);
}

} // verus!
