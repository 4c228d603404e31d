//! Telling the application's own clipboard writes from everyone else's.

use crate::clock::nanos_since;
use crate::domain::normalize;
use crate::domain::normalize::content_hash;
use crate::sequences;
use crate::text::same_text;
use vstd::prelude::*;

verus! {

#[derive(Debug, Clone, Copy, PartialEq, Eq, Structural)]
pub enum ClipboardEventOrigin {
    External,
    KitsuPin,
}

#[derive(Debug, Clone, Copy, PartialEq, Eq, Structural)]
pub enum MarkState {
    Pending,
    Committed,
}

/// How long a mark is kept, in nanoseconds.
pub const MARK_LIFETIME: u128 = 10_000_000_000;

/// How long a mark suppresses a matching copy, in nanoseconds.
pub const SUPPRESSION_WINDOW: u128 = 2_000_000_000;

struct ActiveMark {
    id: u64,
    hash: String,
    created_at: u128,
    state: MarkState,
    origin: ClipboardEventOrigin,
    expected_owner: Option<u32>,
}

/// What a mark records of one write to the clipboard: moments are nanoseconds of the guard's
/// own clock.
pub struct MarkView {
    pub id: u64,
    pub hash: Seq<char>,
    pub created_at: u128,
    pub state: MarkState,
    pub origin: ClipboardEventOrigin,
    pub expected_owner: Option<u32>,
}

impl View for ActiveMark {
    type V = MarkView;

    closed spec fn view(&self) -> MarkView {
        MarkView {
            id: self.id,
            hash: self.hash@,
            created_at: self.created_at,
            state: self.state,
            origin: self.origin,
            expected_owner: self.expected_owner,
        }
    }
}

/// Remembers what the application itself has put on the clipboard.
pub struct OwnCopyGuard {
    started: std::time::Instant,
    next_id: u64,
    marks: Vec<ActiveMark>,
}

#[verifier::ext_equal]
pub struct GuardView {
    pub last_id: u64,
    pub marks: Seq<MarkView>,
}

spec fn mark_views(marks: Seq<ActiveMark>) -> Seq<MarkView> {
    marks.map_values(|mark: ActiveMark| mark@)
}

impl View for OwnCopyGuard {
    type V = GuardView;

    closed spec fn view(&self) -> GuardView {
        GuardView { last_id: self.next_id, marks: mark_views(self.marks@) }
    }
}

impl MarkView {
    /// Still remembered at `now`.
    pub open spec fn alive(self, now: u128) -> bool {
        now - self.created_at < MARK_LIFETIME
    }

    /// Suppresses a copy seen at `now` of the text with this hash, made by `owner` if known.
    pub open spec fn suppresses(self, now: u128, hash: Seq<char>, owner: Option<u32>) -> bool {
        &&& now - self.created_at < SUPPRESSION_WINDOW
        &&& self.hash == hash
        &&& owner is Some && self.expected_owner is Some ==> owner == self.expected_owner
    }
}

impl GuardView {
    pub open spec fn alive_marks(self, now: u128) -> Seq<MarkView> {
        self.marks.filter(|mark: MarkView| mark.alive(now))
    }

    pub open spec fn id_after(self) -> u64 {
        if self.last_id == u64::MAX {
            0
        } else {
            (self.last_id + 1) as u64
        }
    }

    /// After a pending write of the text with this hash has been announced.
    pub open spec fn marked(
        self,
        now: u128,
        hash: Seq<char>,
        origin: ClipboardEventOrigin,
        expected_owner: Option<u32>,
    ) -> GuardView {
        GuardView {
            last_id: self.id_after(),
            marks: self.alive_marks(now).push(
                MarkView {
                    id: self.id_after(),
                    hash,
                    created_at: now,
                    state: MarkState::Pending,
                    origin,
                    expected_owner,
                },
            ),
        }
    }

    /// The position of the first mark with this id, or the number of marks.
    pub open spec fn position_of(self, id: u64) -> int {
        sequences::first_index(self.marks, |mark: MarkView| mark.id == id)
    }

    pub open spec fn committed(self, id: u64) -> GuardView {
        let at = self.position_of(id);
        if at < self.marks.len() {
            GuardView {
                marks: self.marks.update(
                    at,
                    MarkView { state: MarkState::Committed, ..self.marks[at] },
                ),
                ..self
            }
        } else {
            self
        }
    }

    pub open spec fn cancelled(self, id: u64) -> GuardView {
        GuardView { marks: self.marks.filter(|mark: MarkView| mark.id != id), ..self }
    }

    /// Whether a copy seen at `now` is the application's own, and the guard afterwards: the
    /// first mark that suppresses it is used up.
    pub open spec fn checked(self, now: u128, hash: Seq<char>, owner: Option<u32>) -> (
        GuardView,
        bool,
    ) {
        let kept = self.alive_marks(now);
        let at = sequences::first_index(kept, |mark: MarkView| mark.suppresses(now, hash, owner));
        if at < kept.len() {
            (GuardView { marks: kept.remove(at), ..self }, true)
        } else {
            (GuardView { marks: kept, ..self }, false)
        }
    }
}

impl Default for OwnCopyGuard {
    fn default() -> (guard: Self)
        ensures
            guard@ == (GuardView { last_id: 0, marks: Seq::empty() }),
    {
        let guard = OwnCopyGuard { started: std::time::Instant::now(), next_id: 0, marks: Vec::new() };
        assert(guard@.marks =~= Seq::empty());
        guard
    }
}

impl OwnCopyGuard {
    /// Nanoseconds of the guard's own clock.
    pub(crate) fn now(&self) -> u128 {
        nanos_since(&self.started)
    }

    fn drop_expired(&mut self, now: u128)
        ensures
            final(self)@ == (GuardView { marks: old(self)@.alive_marks(now), ..old(self)@ }),
    {
        let mut marks: Vec<ActiveMark> = Vec::new();
        std::mem::swap(&mut marks, &mut self.marks);
        let mut kept: Vec<ActiveMark> = Vec::new();
        let ghost all = marks@;
        let ghost alive = |mark: MarkView| mark.alive(now);
        proof {
            reveal(Seq::filter);
            assert(mark_views(kept@) =~= mark_views(all).take(0).filter(alive));
        }
        for mark in iter: marks.into_iter()
            invariant
                iter.seq() == all,
                alive == (|mark: MarkView| mark.alive(now)),
                mark_views(kept@) == mark_views(all).take(iter.index()).filter(alive),
        {
            proof {
                sequences::lemma_filter_take(mark_views(all), alive, iter.index());
            }
            if mark.created_at >= now || now - mark.created_at < MARK_LIFETIME {
                let ghost before = kept@;
                kept.push(mark);
                proof {
                    assert(mark_views(kept@) =~= mark_views(before).push(mark@));
                }
            }
        }
        self.marks = kept;
        proof {
            assert(mark_views(all).take(all.len() as int) =~= mark_views(all));
        }
    }

    /// [`Self::mark_pending_with_details`] at a given moment of the guard's clock.
    pub fn mark_pending_with_details_at(
        &mut self,
        normalized: &str,
        origin: ClipboardEventOrigin,
        expected_owner: Option<u32>,
        now: u128,
    ) -> (id: u64)
        ensures
            id == old(self)@.id_after(),
            final(self)@ == old(self)@.marked(
                now,
                normalize::hash_of(normalized@),
                origin,
                expected_owner,
            ),
    {
        let id: u64 = self.next_id.wrapping_add(1);
        self.next_id = id;
        self.drop_expired(now);
        let mark = ActiveMark {
            id,
            hash: content_hash(normalized),
            created_at: now,
            state: MarkState::Pending,
            origin,
            expected_owner,
        };
        let ghost before = self.marks@;
        self.marks.push(mark);
        proof {
            assert(mark_views(self.marks@) =~= mark_views(before).push(mark@));
        }
        id
    }

    /// Announces that the application is about to put a text on the clipboard.
    pub fn mark_pending_with_details(
        &mut self,
        normalized: &str,
        origin: ClipboardEventOrigin,
        expected_owner: Option<u32>,
    ) -> (id: u64)
        ensures
            id == old(self)@.id_after(),
            exists|now: u128|
                final(self)@ == #[trigger] old(self)@.marked(
                    now,
                    normalize::hash_of(normalized@),
                    origin,
                    expected_owner,
                ),
    {
        let now = self.now();
        self.mark_pending_with_details_at(normalized, origin, expected_owner, now)
    }

    pub fn mark_pending(&mut self, normalized: &str) -> (id: u64)
        ensures
            id == old(self)@.id_after(),
            exists|now: u128|
                final(self)@ == #[trigger] old(self)@.marked(
                    now,
                    normalize::hash_of(normalized@),
                    ClipboardEventOrigin::KitsuPin,
                    None,
                ),
    {
        self.mark_pending_with_details(normalized, ClipboardEventOrigin::KitsuPin, None)
    }

    /// The write was made.
    pub fn commit(&mut self, token: u64)
        ensures
            final(self)@ == old(self)@.committed(token),
    {
        let ghost views = self@.marks;
        let ghost wanted = |mark: MarkView| mark.id == token;
        let mut i: usize = 0;
        while i < self.marks.len()
            invariant
                i <= self.marks@.len(),
                views == mark_views(self.marks@),
                *self == *old(self),
                wanted == (|mark: MarkView| mark.id == token),
                forall|k: int| 0 <= k < i ==> !wanted(#[trigger] views[k]),
            decreases self.marks@.len() - i,
        {
            if self.marks[i].id == token {
                proof {
                    sequences::lemma_is_first_index(views, wanted, i as int);
                }
                self.marks[i].state = MarkState::Committed;
                proof {
                    assert(self@.marks =~= old(self)@.committed(token).marks);
                }
                return;
            }
            i += 1;
        }
        proof {
            sequences::lemma_is_first_index(views, wanted, i as int);
        }
    }

    /// The write was not made after all.
    pub fn cancel(&mut self, token: u64)
        ensures
            final(self)@ == old(self)@.cancelled(token),
    {
        let mut marks: Vec<ActiveMark> = Vec::new();
        std::mem::swap(&mut marks, &mut self.marks);
        let mut kept: Vec<ActiveMark> = Vec::new();
        let ghost all = marks@;
        let ghost stays = |mark: MarkView| mark.id != token;
        proof {
            reveal(Seq::filter);
            assert(mark_views(kept@) =~= mark_views(all).take(0).filter(stays));
        }
        for mark in iter: marks.into_iter()
            invariant
                iter.seq() == all,
                stays == (|mark: MarkView| mark.id != token),
                mark_views(kept@) == mark_views(all).take(iter.index()).filter(stays),
        {
            proof {
                sequences::lemma_filter_take(mark_views(all), stays, iter.index());
            }
            if mark.id != token {
                let ghost before = kept@;
                kept.push(mark);
                proof {
                    assert(mark_views(kept@) =~= mark_views(before).push(mark@));
                }
            }
        }
        self.marks = kept;
        proof {
            assert(mark_views(all).take(all.len() as int) =~= mark_views(all));
        }
    }

    /// Announces a write that has already been made.
    pub fn mark(&mut self, normalized: &str)
        ensures
            exists|now: u128|
                final(self)@ == (#[trigger] old(self)@.marked(
                    now,
                    normalize::hash_of(normalized@),
                    ClipboardEventOrigin::KitsuPin,
                    None,
                )).committed(old(self)@.id_after()),
    {
        let token = self.mark_pending(normalized);
        self.commit(token);
    }

    /// [`Self::should_suppress_with_owner`] at a given moment of the guard's clock.
    pub fn should_suppress_with_owner_at(
        &mut self,
        normalized: &str,
        actual_owner: Option<u32>,
        now: u128,
    ) -> (suppress: bool)
        ensures
            (final(self)@, suppress) == old(self)@.checked(
                now,
                normalize::hash_of(normalized@),
                actual_owner,
            ),
    {
        let target = content_hash(normalized);
        self.drop_expired(now);
        let ghost views = self@.marks;
        let ghost kept = *self;
        let ghost wanted = |mark: MarkView| mark.suppresses(now, target@, actual_owner);
        let mut i: usize = 0;
        while i < self.marks.len()
            invariant
                i <= self.marks@.len(),
                *self == kept,
                views == kept@.marks,
                views == mark_views(self.marks@),
                target@ == normalize::hash_of(normalized@),
                wanted == (|mark: MarkView| mark.suppresses(now, target@, actual_owner)),
                kept@ == (GuardView { marks: old(self)@.alive_marks(now), ..old(self)@ }),
                forall|k: int| 0 <= k < i ==> !wanted(#[trigger] views[k]),
            decreases self.marks@.len() - i,
        {
            let mark = &self.marks[i];
            let recent = mark.created_at >= now || now - mark.created_at < SUPPRESSION_WINDOW;
            let owners_agree = match (actual_owner, mark.expected_owner) {
                (Some(owner), Some(expected)) => owner == expected,
                _ => true,
            };
            if recent && same_text(mark.hash.as_str(), target.as_str()) && owners_agree {
                proof {
                    assert(wanted(views[i as int]));
                    sequences::lemma_is_first_index(views, wanted, i as int);
                }
                let _ = self.marks.remove(i);
                proof {
                    assert(self@.marks =~= views.remove(i as int));
                }
                return true;
            }
            proof {
                assert(!wanted(views[i as int]));
            }
            i += 1;
        }
        proof {
            sequences::lemma_is_first_index(views, wanted, i as int);
        }
        false
    }

    /// Whether a clipboard change is the application's own write seen again. Each write is
    /// recognised once.
    pub fn should_suppress_with_owner(&mut self, normalized: &str, actual_owner: Option<u32>) -> (suppress:
        bool)
        ensures
            exists|now: u128|
                (final(self)@, suppress) == #[trigger] old(self)@.checked(
                    now,
                    normalize::hash_of(normalized@),
                    actual_owner,
                ),
    {
        let now = self.now();
        self.should_suppress_with_owner_at(normalized, actual_owner, now)
    }

    pub fn should_suppress(&mut self, normalized: &str) -> (suppress: bool)
        ensures
            exists|now: u128|
                (final(self)@, suppress) == #[trigger] old(self)@.checked(
                    now,
                    normalize::hash_of(normalized@),
                    None,
                ),
    {
        self.should_suppress_with_owner(normalized, None)
    }
}

/// No mark for the text with this hash.
pub open spec fn unmarked(guard: GuardView, hash: Seq<char>) -> bool {
    forall|i: int| 0 <= i < guard.marks.len() ==> (#[trigger] guard.marks[i]).hash != hash
}

proof fn lemma_kept_marks(marks: Seq<MarkView>, pred: spec_fn(MarkView) -> bool)
    ensures
        forall|i: int|
            0 <= i < marks.filter(pred).len() ==> marks.contains(#[trigger] marks.filter(pred)[i])
                && pred(marks.filter(pred)[i]),
{
    sequences::lemma_filter_members(marks, pred);
    let kept = marks.filter(pred);
    assert forall|i: int| 0 <= i < kept.len() implies marks.contains(#[trigger] kept[i]) && pred(
        kept[i],
    ) by {
        assert(kept.contains(kept[i]));
    }
}

proof fn lemma_unmarked_is_not_suppressed(
    guard: GuardView,
    now: u128,
    hash: Seq<char>,
    owner: Option<u32>,
)
    requires
        unmarked(guard, hash),
    ensures
        !guard.checked(now, hash, owner).1,
        unmarked(guard.checked(now, hash, owner).0, hash),
{
    let alive = |mark: MarkView| mark.alive(now);
    lemma_kept_marks(guard.marks, alive);
    let kept = guard.alive_marks(now);
    let wanted = |mark: MarkView| mark.suppresses(now, hash, owner);
    assert forall|k: int| 0 <= k < kept.len() implies !wanted(#[trigger] kept[k]) && kept[k].hash
        != hash by {
        let i = choose|i: int| 0 <= i < guard.marks.len() && guard.marks[i] == kept[k];
        assert(guard.marks[i].hash != hash);
    }
    sequences::lemma_is_first_index(kept, wanted, kept.len() as int);
}

/// A write that was announced is recognised once within the suppression window, whether or not
/// it has been committed by then, and not a second time.
pub proof fn write_is_suppressed_exactly_once(
    guard: GuardView,
    marked_at: u128,
    seen_at: u128,
    again_at: u128,
    hash: Seq<char>,
    origin: ClipboardEventOrigin,
    expected_owner: Option<u32>,
    owner: Option<u32>,
    commit: bool,
)
    requires
        unmarked(guard, hash),
        seen_at - marked_at < SUPPRESSION_WINDOW,
        owner is None || expected_owner is None || owner == expected_owner,
    ensures
        ({
            let pending = guard.marked(marked_at, hash, origin, expected_owner);
            let announced = if commit {
                pending.committed(guard.id_after())
            } else {
                pending
            };
            let first = announced.checked(seen_at, hash, owner);
            first.1 && !first.0.checked(again_at, hash, owner).1
        }),
{
    let pending = guard.marked(marked_at, hash, origin, expected_owner);
    let announced = if commit {
        pending.committed(guard.id_after())
    } else {
        pending
    };
    let last = pending.marks.len() - 1;
    lemma_kept_marks(guard.marks, |mark: MarkView| mark.alive(marked_at));
    assert forall|i: int| 0 <= i < last implies (#[trigger] pending.marks[i]).hash != hash by {
        let kept = guard.alive_marks(marked_at);
        assert(pending.marks[i] == kept[i]);
        let k = choose|k: int| 0 <= k < guard.marks.len() && guard.marks[k] == kept[i];
        assert(guard.marks[k].hash != hash);
    }
    if commit {
        sequences::lemma_first_index(pending.marks, |mark: MarkView| mark.id == guard.id_after());
    }
    assert(announced.marks.len() == pending.marks.len());
    assert forall|i: int| 0 <= i < announced.marks.len() implies (#[trigger] announced.marks[i]).hash
        == pending.marks[i].hash && announced.marks[i].created_at == pending.marks[i].created_at
        && announced.marks[i].expected_owner == pending.marks[i].expected_owner by {}
    let alive = |mark: MarkView| mark.alive(seen_at);
    let head = announced.marks.drop_last();
    let own = announced.marks.last();
    assert(announced.marks =~= head.push(own));
    sequences::lemma_filter_push(head, alive, own);
    let kept = announced.alive_marks(seen_at);
    assert(kept == head.filter(alive).push(own));
    lemma_kept_marks(head, alive);
    let wanted = |mark: MarkView| mark.suppresses(seen_at, hash, owner);
    assert forall|k: int| 0 <= k < kept.len() - 1 implies !wanted(#[trigger] kept[k]) && kept[k].hash
        != hash by {
        assert(kept[k] == head.filter(alive)[k]);
        let i = choose|i: int| 0 <= i < head.len() && head[i] == kept[k];
        assert(announced.marks[i] == head[i]);
        assert(pending.marks[i].hash != hash);
    }
    sequences::lemma_is_first_index(kept, wanted, kept.len() - 1);
    let after = announced.checked(seen_at, hash, owner).0;
    assert(after.marks =~= head.filter(alive));
    assert(unmarked(after, hash));
    lemma_unmarked_is_not_suppressed(after, again_at, hash, owner);
}

/// A write that was announced and cancelled is not recognised.
pub proof fn cancelled_write_is_not_suppressed(
    guard: GuardView,
    marked_at: u128,
    seen_at: u128,
    hash: Seq<char>,
    origin: ClipboardEventOrigin,
    expected_owner: Option<u32>,
    owner: Option<u32>,
)
    requires
        unmarked(guard, hash),
    ensures
        !guard.marked(marked_at, hash, origin, expected_owner).cancelled(guard.id_after()).checked(
            seen_at,
            hash,
            owner,
        ).1,
{
    let pending = guard.marked(marked_at, hash, origin, expected_owner);
    let stays = |mark: MarkView| mark.id != guard.id_after();
    let after = pending.cancelled(guard.id_after());
    lemma_kept_marks(guard.marks, |mark: MarkView| mark.alive(marked_at));
    lemma_kept_marks(pending.marks, stays);
    assert forall|i: int| 0 <= i < after.marks.len() implies (#[trigger] after.marks[i]).hash
        != hash by {
        let k = choose|k: int| 0 <= k < pending.marks.len() && pending.marks[k] == after.marks[i];
        assert(pending.marks[k].id != guard.id_after());
        let kept = guard.alive_marks(marked_at);
        assert(pending.marks[k] == kept[k]);
        let j = choose|j: int| 0 <= j < guard.marks.len() && guard.marks[j] == kept[k];
        assert(guard.marks[j].hash != hash);
    }
    lemma_unmarked_is_not_suppressed(after, seen_at, hash, owner);
}

/// A copy made by another window than the one a write was announced for is not recognised as
/// that write, and the announcement stays in force.
pub proof fn other_owner_is_not_suppressed(
    guard: GuardView,
    marked_at: u128,
    seen_at: u128,
    hash: Seq<char>,
    origin: ClipboardEventOrigin,
    expected_owner: u32,
    owner: u32,
)
    requires
        unmarked(guard, hash),
        owner != expected_owner,
    ensures
        ({
            let pending = guard.marked(marked_at, hash, origin, Some(expected_owner));
            let (after, suppress) = pending.checked(seen_at, hash, Some(owner));
            !suppress && after.marks == pending.alive_marks(seen_at)
        }),
{
    let pending = guard.marked(marked_at, hash, origin, Some(expected_owner));
    let alive = |mark: MarkView| mark.alive(seen_at);
    lemma_kept_marks(guard.marks, |mark: MarkView| mark.alive(marked_at));
    lemma_kept_marks(pending.marks, alive);
    let kept = pending.alive_marks(seen_at);
    let wanted = |mark: MarkView| mark.suppresses(seen_at, hash, Some(owner));
    assert forall|k: int| 0 <= k < kept.len() implies !wanted(#[trigger] kept[k]) by {
        let i = choose|i: int| 0 <= i < pending.marks.len() && pending.marks[i] == kept[k];
        if i < pending.marks.len() - 1 {
            let before = guard.alive_marks(marked_at);
            assert(pending.marks[i] == before[i]);
            let j = choose|j: int| 0 <= j < guard.marks.len() && guard.marks[j] == before[i];
            assert(guard.marks[j].hash != hash);
        }
    }
    sequences::lemma_is_first_index(kept, wanted, kept.len() as int);
}

} // verus!
