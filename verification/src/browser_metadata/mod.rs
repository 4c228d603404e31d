//! What the browser extension tells about copies: events, receipts, and who was heard of last.

pub mod buffer;
pub mod laws;
pub mod protocol;
pub mod reconcile;

pub use buffer::MetadataBuffer;
pub use protocol::socket_path;

use crate::clock;
use crate::clock::{now_millis, parse_rfc3339, Moment};
use crate::domain::normalize;
use crate::domain::normalize_domain;
use crate::identity::random_uuid;
use crate::text;
use crate::text::{ascii_hexdigit, chars_of, same_text, take_chars, trim};
use vstd::prelude::*;

verus! {

/// How far a copy and the browser's report of it may lie apart, in milliseconds.
pub const RECEIPT_MATCH_WINDOW_MS: i64 = 2000;

/// How long a sign of life of the extension counts, in milliseconds.
pub const HANDSHAKE_TTL_MS: i64 = 45_000;

/// The longest page title that is kept, in characters.
pub const MAX_TITLE_CHARS: usize = 500;

/// The largest content that the browser may report, in bytes.
pub const MAX_EVENT_LENGTH: usize = 1_000_000;

/// A copy made in the browser, as the extension reports it.
#[derive(Debug)]
pub struct BrowserCopyEvent {
    pub event_id: u128,
    pub version: u8,
    pub event: String,
    pub content_hash: String,
    pub content_length: usize,
    pub domain: String,
    pub page_title: String,
    pub timestamp: String,
}

#[verifier::ext_equal]
pub struct EventView {
    pub event_id: u128,
    pub version: u8,
    pub event: Seq<char>,
    pub content_hash: Seq<char>,
    pub content_length: usize,
    pub domain: Seq<char>,
    pub page_title: Seq<char>,
    pub timestamp: Seq<char>,
}

impl View for BrowserCopyEvent {
    type V = EventView;

    open spec fn view(&self) -> EventView {
        EventView {
            event_id: self.event_id,
            version: self.version,
            event: self.event@,
            content_hash: self.content_hash@,
            content_length: self.content_length,
            domain: self.domain@,
            page_title: self.page_title@,
            timestamp: self.timestamp@,
        }
    }
}

impl Clone for BrowserCopyEvent {
    fn clone(&self) -> (copy: Self)
        ensures
            copy == *self,
    {
        BrowserCopyEvent {
            event_id: self.event_id,
            version: self.version,
            event: self.event.clone(),
            content_hash: self.content_hash.clone(),
            content_length: self.content_length,
            domain: self.domain.clone(),
            page_title: self.page_title.clone(),
            timestamp: self.timestamp.clone(),
        }
    }
}

/// Why an event is not accepted.
#[derive(Debug, Clone, Copy, PartialEq, Eq, Structural)]
pub enum EventError {
    Unsupported,
    BadHash,
    TooLong,
    BadDomain,
    BadTimestamp,
}

impl EventError {
    pub open spec fn text(self) -> Seq<char> {
        match self {
            EventError::Unsupported => "неподдерживаемое сообщение"@,
            EventError::BadHash => "некорректный hash"@,
            EventError::TooLong => "слишком большое содержимое"@,
            EventError::BadDomain => "некорректный домен"@,
            EventError::BadTimestamp => "некорректное время"@,
        }
    }

    pub fn message(&self) -> (message: &'static str)
        ensures
            message@ == self.text(),
    {
        match self {
            EventError::Unsupported => "неподдерживаемое сообщение",
            EventError::BadHash => "некорректный hash",
            EventError::TooLong => "слишком большое содержимое",
            EventError::BadDomain => "некорректный домен",
            EventError::BadTimestamp => "некорректное время",
        }
    }
}

/// Sixty-four hexadecimal digits in either case.
pub open spec fn is_hash(hash: Seq<char>) -> bool {
    hash.len() == 64 && forall|i: int|
        0 <= i < hash.len() ==> text::is_ascii_hexdigit(#[trigger] hash[i])
}

impl EventView {
    /// What is wrong with the event, if anything; the first defect counts.
    pub open spec fn problem(self) -> Option<EventError> {
        if self.version != 1 || self.event != "copy"@ {
            Some(EventError::Unsupported)
        } else if !is_hash(self.content_hash) {
            Some(EventError::BadHash)
        } else if self.content_length > MAX_EVENT_LENGTH {
            Some(EventError::TooLong)
        } else if normalize::normalized_domain(self.domain) is None {
            Some(EventError::BadDomain)
        } else if clock::rfc3339_moment(self.timestamp) is None {
            Some(EventError::BadTimestamp)
        } else {
            None
        }
    }

    /// The event with its domain and title in normal form, and an identifier of its own.
    pub open spec fn normal_form(self, fresh_id: u128) -> EventView {
        EventView {
            event_id: if self.event_id == 0 {
                fresh_id
            } else {
                self.event_id
            },
            domain: normalize::normalized_domain(self.domain)->0,
            page_title: text::prefix(text::trimmed(self.page_title), MAX_TITLE_CHARS as int),
            ..self
        }
    }

    /// When the copy was made.
    pub open spec fn moment(self) -> Option<Moment> {
        clock::rfc3339_moment(self.timestamp)
    }
}

fn hash_is_valid(hash: &str) -> (answer: bool)
    ensures
        answer == is_hash(hash@),
{
    let chars = chars_of(hash);
    if chars.len() != 64 {
        return false;
    }
    let mut i: usize = 0;
    while i < chars.len()
        invariant
            i <= chars@.len(),
            chars@.len() == 64,
            chars@ == hash@,
            forall|k: int| 0 <= k < i ==> text::is_ascii_hexdigit(#[trigger] chars@[k]),
        decreases chars@.len() - i,
    {
        if !ascii_hexdigit(chars[i]) {
            return false;
        }
        i += 1;
    }
    true
}

impl BrowserCopyEvent {
    /// [`Self::validate`] with the identifier to give an event that has none.
    pub fn validate_as(self, fresh_id: u128) -> (result: Result<Self, EventError>)
        ensures
            match self@.problem() {
                Some(problem) => result == Err::<Self, EventError>(problem),
                None => result matches Ok(event) && event@ == self@.normal_form(fresh_id),
            },
    {
        let mut event = self;
        if event.version != 1 || !same_text(event.event.as_str(), "copy") {
            return Err(EventError::Unsupported);
        }
        if !hash_is_valid(event.content_hash.as_str()) {
            return Err(EventError::BadHash);
        }
        if event.content_length > MAX_EVENT_LENGTH {
            return Err(EventError::TooLong);
        }
        let domain = match normalize_domain(event.domain.as_str()) {
            Some(domain) => domain,
            None => return Err(EventError::BadDomain),
        };
        if parse_rfc3339(event.timestamp.as_str()).is_none() {
            return Err(EventError::BadTimestamp);
        }
        event.domain = domain;
        event.page_title = take_chars(trim(event.page_title.as_str()).as_str(), MAX_TITLE_CHARS);
        if event.event_id == 0 {
            event.event_id = fresh_id;
        }
        Ok(event)
    }

    /// Accepts an event and brings it into normal form.
    pub fn validate(self) -> (result: Result<Self, EventError>)
        ensures
            match self@.problem() {
                Some(problem) => result == Err::<Self, EventError>(problem),
                None => result matches Ok(event) && event@.event_id != 0 && exists|fresh_id: u128|
                    fresh_id != 0 && event@ == #[trigger] self@.normal_form(fresh_id),
            },
    {
        self.validate_as(random_uuid())
    }

    /// When the copy was made, in milliseconds since the Unix epoch.
    pub fn timestamp_millis(&self) -> (result: Result<i64, EventError>)
        ensures
            match self@.moment() {
                Some(at) => result matches Ok(millis) && millis == at.millis(),
                None => result == Err::<i64, EventError>(EventError::BadTimestamp),
            },
    {
        match parse_rfc3339(self.timestamp.as_str()) {
            Some(at) => Ok(at.to_millis()),
            None => Err(EventError::BadTimestamp),
        }
    }
}

/// An accepted event, accepted once more, stays as it is, unless its domain still begins with
/// `www.`.
pub proof fn normal_form_is_stable(event: EventView, fresh_id: u128, other_id: u128)
    requires
        event.problem() is None,
        fresh_id != 0,
        normalize::normalized_domain(event.normal_form(fresh_id).domain) == Some(
            event.normal_form(fresh_id).domain,
        ),
    ensures
        event.normal_form(fresh_id).problem() is None,
        event.normal_form(fresh_id).normal_form(other_id).domain == event.normal_form(
            fresh_id,
        ).domain,
        event.normal_form(fresh_id).normal_form(other_id).event_id == event.normal_form(
            fresh_id,
        ).event_id,
        event.normal_form(fresh_id).page_title.len() <= MAX_TITLE_CHARS,
{
}

/// When the extension was last heard of, in milliseconds since the Unix epoch; zero for never.
#[derive(Debug, Clone, Copy, PartialEq, Eq, Structural)]
pub struct BrowserActivity {
    pub extension_handshake_at: i64,
    pub copy_metadata_at: i64,
}

impl Default for BrowserActivity {
    fn default() -> (activity: Self)
        ensures
            activity.extension_handshake_at == 0,
            activity.copy_metadata_at == 0,
    {
        BrowserActivity { extension_handshake_at: 0, copy_metadata_at: 0 }
    }
}

/// A recorded moment, if there is one.
pub open spec fn recorded(at: i64) -> Option<i64> {
    if at > 0 {
        Some(at)
    } else {
        None
    }
}

/// At most [`HANDSHAKE_TTL_MS`] away from `now`.
pub open spec fn is_recent(at: Option<i64>, now: i64) -> bool {
    at is Some && -HANDSHAKE_TTL_MS <= now - at->0 <= HANDSHAKE_TTL_MS
}

/// Records a sign of life of the extension at the present moment, which is not before the epoch.
pub fn record_extension_handshake_received(activity: &mut BrowserActivity)
    ensures
        final(activity).extension_handshake_at >= 0,
        final(activity).copy_metadata_at == old(activity).copy_metadata_at,
{
    record_extension_handshake_received_at(activity, now_millis());
}

pub fn record_extension_handshake_received_at(activity: &mut BrowserActivity, now: i64)
    ensures
        *final(activity) == (BrowserActivity { extension_handshake_at: now, ..*old(activity) }),
{
    activity.extension_handshake_at = now;
}

/// Records a report of a copy at the present moment, which is not before the epoch.
pub fn record_copy_metadata_received(activity: &mut BrowserActivity)
    ensures
        final(activity).copy_metadata_at >= 0,
        final(activity).extension_handshake_at == old(activity).extension_handshake_at,
{
    record_copy_metadata_received_at(activity, now_millis());
}

pub fn record_copy_metadata_received_at(activity: &mut BrowserActivity, now: i64)
    ensures
        *final(activity) == (BrowserActivity { copy_metadata_at: now, ..*old(activity) }),
{
    activity.copy_metadata_at = now;
}

pub fn get_last_extension_handshake_at(activity: &BrowserActivity) -> (at: Option<i64>)
    ensures
        at == recorded(activity.extension_handshake_at),
{
    if activity.extension_handshake_at > 0 {
        Some(activity.extension_handshake_at)
    } else {
        None
    }
}

pub fn get_last_browser_copy_metadata_at(activity: &BrowserActivity) -> (at: Option<i64>)
    ensures
        at == recorded(activity.copy_metadata_at),
{
    if activity.copy_metadata_at > 0 {
        Some(activity.copy_metadata_at)
    } else {
        None
    }
}

/// The later of the two recorded moments.
pub open spec fn last_message(activity: BrowserActivity) -> Option<i64> {
    let handshake = recorded(activity.extension_handshake_at);
    let copy = recorded(activity.copy_metadata_at);
    if handshake is Some && (copy is None || copy->0 <= handshake->0) {
        handshake
    } else {
        copy
    }
}

pub fn get_last_message_at(activity: &BrowserActivity) -> (at: Option<i64>)
    ensures
        at == last_message(*activity),
{
    match (get_last_extension_handshake_at(activity), get_last_browser_copy_metadata_at(activity)) {
        (Some(handshake), Some(copy)) => if handshake >= copy {
            Some(handshake)
        } else {
            Some(copy)
        },
        (Some(handshake), None) => Some(handshake),
        (None, copy) => copy,
    }
}

fn lies_within_ttl(at: Option<i64>, now: i64) -> (answer: bool)
    ensures
        answer == is_recent(at, now),
{
    match at {
        Some(at) => {
            let apart: i128 = now as i128 - at as i128;
            -(HANDSHAKE_TTL_MS as i128) <= apart && apart <= HANDSHAKE_TTL_MS as i128
        },
        None => false,
    }
}

/// The extension has been heard of at most [`HANDSHAKE_TTL_MS`] away from `now`.
pub open spec fn active_at(activity: BrowserActivity, now: i64) -> bool {
    is_recent(recorded(activity.extension_handshake_at), now) || is_recent(
        recorded(activity.copy_metadata_at),
        now,
    )
}

/// [`is_handshake_active`] at a given time.
pub fn is_handshake_active_at(activity: &BrowserActivity, now: i64) -> (active: bool)
    ensures
        active == active_at(*activity, now),
{
    lies_within_ttl(get_last_extension_handshake_at(activity), now) || lies_within_ttl(
        get_last_browser_copy_metadata_at(activity),
        now,
    )
}

/// Whether the extension has been heard of lately.
pub fn is_handshake_active(activity: &BrowserActivity) -> (active: bool)
    ensures
        exists|now: i64| active == #[trigger] active_at(*activity, now),
{
    is_handshake_active_at(activity, now_millis())
}

/// What saving a clip without a domain has changed, so that a late report of the browser can be
/// attached to it or the change be taken back.
#[derive(Debug)]
pub struct ClipUpsertReceipt {
    pub receipt_id: u128,
    pub clip_id: String,
    pub content_hash: String,
    pub normalized_length_bytes: usize,
    pub previous_last_copied_at: Option<i64>,
    pub previous_sort_key: Option<i64>,
    pub previous_copy_count: i64,
    pub previous_content: Option<String>,
    pub resulting_last_copied_at: i64,
    pub resulting_sort_key: i64,
    pub resulting_copy_count: i64,
    pub copy_timestamp: i64,
}

#[verifier::ext_equal]
pub struct ReceiptView {
    pub receipt_id: u128,
    pub clip_id: Seq<char>,
    pub content_hash: Seq<char>,
    pub normalized_length_bytes: usize,
    pub previous_last_copied_at: Option<i64>,
    pub previous_sort_key: Option<i64>,
    pub previous_copy_count: i64,
    pub previous_content: Option<Seq<char>>,
    pub resulting_last_copied_at: i64,
    pub resulting_sort_key: i64,
    pub resulting_copy_count: i64,
    pub copy_timestamp: i64,
}

impl View for ClipUpsertReceipt {
    type V = ReceiptView;

    open spec fn view(&self) -> ReceiptView {
        ReceiptView {
            receipt_id: self.receipt_id,
            clip_id: self.clip_id@,
            content_hash: self.content_hash@,
            normalized_length_bytes: self.normalized_length_bytes,
            previous_last_copied_at: self.previous_last_copied_at,
            previous_sort_key: self.previous_sort_key,
            previous_copy_count: self.previous_copy_count,
            previous_content: text::text_of(self.previous_content),
            resulting_last_copied_at: self.resulting_last_copied_at,
            resulting_sort_key: self.resulting_sort_key,
            resulting_copy_count: self.resulting_copy_count,
            copy_timestamp: self.copy_timestamp,
        }
    }
}

impl Clone for ClipUpsertReceipt {
    fn clone(&self) -> (copy: Self)
        ensures
            copy == *self,
    {
        ClipUpsertReceipt {
            receipt_id: self.receipt_id,
            clip_id: self.clip_id.clone(),
            content_hash: self.content_hash.clone(),
            normalized_length_bytes: self.normalized_length_bytes,
            previous_last_copied_at: self.previous_last_copied_at,
            previous_sort_key: self.previous_sort_key,
            previous_copy_count: self.previous_copy_count,
            previous_content: self.previous_content.clone(),
            resulting_last_copied_at: self.resulting_last_copied_at,
            resulting_sort_key: self.resulting_sort_key,
            resulting_copy_count: self.resulting_copy_count,
            copy_timestamp: self.copy_timestamp,
        }
    }
}

} // verus!
