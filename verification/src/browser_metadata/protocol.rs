//! The messages that the native host passes on.

use crate::blob_store;
use crate::blob_store::join_path;
use crate::browser_metadata::buffer::{BufferView, MetadataBuffer};
use crate::browser_metadata::reconcile;
use crate::browser_metadata::{
    record_extension_handshake_received_at, BrowserActivity, BrowserCopyEvent, EventView,
};
use crate::clock::now_millis;
use crate::identity::random_uuid;
use crate::json;
use crate::json::{read_member, JsonMember, MemberView};
use crate::persistence::{Repository, RepositoryView};
use crate::text;
use crate::text::{byte_len, same_text};
use vstd::prelude::*;

verus! {

/// The longest line that is read, in bytes.
pub const MAX_LINE_BYTES: usize = 16_384;

/// The number of lines that are read from one connection.
pub const MAX_LINES: usize = 8;

/// Where the application listens for the native host.
pub fn socket_path(data_dir: &str) -> (path: String)
    ensures
        path@ == blob_store::joined(data_dir@, "native.sock"@),
{
    join_path(data_dir, "native.sock")
}

/// What is answered to a line.
#[derive(Debug, Clone, Copy, PartialEq, Eq, Structural)]
pub enum LineReply {
    /// The line is too long; nothing more is read.
    Stop,
    /// The line is no JSON; it is passed over.
    Silence,
    Accepted,
    ValidationFailed,
    InvalidPayload,
    UnknownEvent,
}

impl LineReply {
    /// The line that is sent back.
    pub open spec fn line(self) -> Option<Seq<char>> {
        match self {
            LineReply::Stop => None,
            LineReply::Silence => None,
            LineReply::Accepted => Some("{\"ok\":true,\"accepted\":true}\n"@),
            LineReply::ValidationFailed => Some("{\"ok\":false,\"error\":\"validation_failed\"}\n"@),
            LineReply::InvalidPayload => Some("{\"ok\":false,\"error\":\"invalid_payload\"}\n"@),
            LineReply::UnknownEvent => Some("{\"ok\":false,\"error\":\"unknown_event\"}\n"@),
        }
    }

    pub fn answer(&self) -> (answer: Option<&'static str>)
        ensures
            text::slice_of(answer) == self.line(),
    {
        match self {
            LineReply::Stop => None,
            LineReply::Silence => None,
            LineReply::Accepted => Some("{\"ok\":true,\"accepted\":true}\n"),
            LineReply::ValidationFailed => Some("{\"ok\":false,\"error\":\"validation_failed\"}\n"),
            LineReply::InvalidPayload => Some("{\"ok\":false,\"error\":\"invalid_payload\"}\n"),
            LineReply::UnknownEvent => Some("{\"ok\":false,\"error\":\"unknown_event\"}\n"),
        }
    }
}

/// What a line is about.
#[derive(Debug, Clone, Copy, PartialEq, Eq, Structural)]
pub enum LineKind {
    TooLong,
    NotJson,
    Status,
    Copy,
    Unknown,
}

/// What a line of this many bytes with this event is about.
pub open spec fn kind_of(bytes: nat, event: Result<Option<MemberView>, Seq<char>>) -> LineKind {
    if bytes > MAX_LINE_BYTES {
        LineKind::TooLong
    } else {
        match event {
            Err(_) => LineKind::NotJson,
            Ok(Some(MemberView::Text(name))) => if name == "status"@ {
                LineKind::Status
            } else if name == "copy"@ {
                LineKind::Copy
            } else {
                LineKind::Unknown
            },
            Ok(_) => LineKind::Unknown,
        }
    }
}

/// Tells what a line is about from its event.
pub fn line_kind(bytes: usize, event: &Result<Option<JsonMember>, String>) -> (kind: LineKind)
    ensures
        kind == kind_of(bytes as nat, json::member_view(*event)),
{
    if bytes > MAX_LINE_BYTES {
        return LineKind::TooLong;
    }
    match event {
        Err(_) => LineKind::NotJson,
        Ok(Some(JsonMember::Text(name))) => {
            if same_text(name.as_str(), "status") {
                LineKind::Status
            } else if same_text(name.as_str(), "copy") {
                LineKind::Copy
            } else {
                LineKind::Unknown
            }
        },
        Ok(_) => LineKind::Unknown,
    }
}

/// A report of a copy is taken in and waiting receipts are matched, or it is refused.
pub open spec fn copy_taken(
    before: BufferView,
    repository: RepositoryView,
    after: BufferView,
    repository_after: RepositoryView,
    event: EventView,
    now_ms: i64,
    fresh_id: u128,
    reply: LineReply,
    attached: usize,
) -> bool {
    match event.problem() {
        Some(_) => {
            &&& reply == LineReply::ValidationFailed
            &&& after == before
            &&& repository_after == repository
            &&& attached == 0
        },
        None => {
            let pushed = before.with_event(event.normal_form(fresh_id), now_ms);
            &&& reply == LineReply::Accepted
            &&& reconcile::reconciles(
                pushed.receipts.len(),
                pushed,
                repository,
                after,
                repository_after,
                attached as int,
            )
        },
    }
}

/// What a line does and what is answered to it.
pub open spec fn line_answered<P: FnOnce() -> Option<BrowserCopyEvent>>(
    kind: LineKind,
    before: BufferView,
    repository: RepositoryView,
    after: BufferView,
    repository_after: RepositoryView,
    parse: P,
    reply: LineReply,
    attached: usize,
) -> bool {
    let unchanged = after == before && repository_after == repository && attached == 0;
    match kind {
        LineKind::TooLong => reply == LineReply::Stop && unchanged,
        LineKind::NotJson => reply == LineReply::Silence && unchanged,
        LineKind::Unknown => reply == LineReply::UnknownEvent && unchanged,
        LineKind::Status => {
            &&& reply == LineReply::Accepted
            &&& repository_after == repository
            &&& attached == 0
            &&& exists|now: i64| now >= 0 && after == #[trigger] before.greeted(now)
        },
        LineKind::Copy => exists|parsed: Option<BrowserCopyEvent>|
            {
                &&& #[trigger] call_ensures(parse, (), parsed)
                &&& match parsed {
                    None => reply == LineReply::InvalidPayload && unchanged,
                    Some(event) => exists|now_ms: i64, fresh_id: u128|
                        now_ms >= 0 && fresh_id != 0 && #[trigger] copy_taken(
                            before,
                            repository,
                            after,
                            repository_after,
                            event@,
                            now_ms,
                            fresh_id,
                            reply,
                            attached,
                        ),
                }
            },
    }
}

impl BufferView {
    /// After a sign of life of the extension.
    pub open spec fn greeted(self, now: i64) -> BufferView {
        BufferView {
            activity: BrowserActivity { extension_handshake_at: now, ..self.activity },
            ..self
        }
    }
}

/// Takes in a line. `parse` reads the line as a report of a copy, if it is one. The answer comes
/// with the number of clips that reports were attached to.
pub fn answer_line<P: FnOnce() -> Option<BrowserCopyEvent>>(
    metadata: &mut MetadataBuffer,
    repository: &mut Repository,
    line: &str,
    parse: P,
) -> (answer: (LineReply, usize))
    requires
        old(metadata)@.wf(),
        old(repository)@.wf(),
        call_requires(parse, ()),
    ensures
        line_answered(
            kind_of(text::utf8_len(line@), json::json_member(line@, "event"@)),
            old(metadata)@,
            old(repository)@,
            final(metadata)@,
            final(repository)@,
            parse,
            answer.0,
            answer.1,
        ),
        final(metadata)@.wf(),
        final(repository)@.wf(),
{
    let bytes = byte_len(line);
    match line_kind(bytes, &read_member(line, "event")) {
        LineKind::TooLong => (LineReply::Stop, 0),
        LineKind::NotJson => (LineReply::Silence, 0),
        LineKind::Unknown => (LineReply::UnknownEvent, 0),
        LineKind::Status => {
            let mut activity = *metadata.activity();
            let now = now_millis();
            record_extension_handshake_received_at(&mut activity, now);
            metadata.set_activity(activity);
            assert(metadata@ == old(metadata)@.greeted(now));
            (LineReply::Accepted, 0)
        },
        LineKind::Copy => {
            let parsed = parse();
            assert(call_ensures(parse, (), parsed));
            match parsed {
                None => (LineReply::InvalidPayload, 0),
                Some(event) => {
                    let ghost reported = event@;
                    let now_ms = now_millis();
                    let fresh_id = random_uuid();
                    let ghost before = repository@;
                    let answer = match metadata.push_at(event, now_ms, fresh_id) {
                        Ok(()) => (LineReply::Accepted, metadata.reconcile_pending(repository)),
                        Err(_) => (LineReply::ValidationFailed, 0),
                    };
                    assert(copy_taken(
                        old(metadata)@,
                        before,
                        metadata@,
                        repository@,
                        reported,
                        now_ms,
                        fresh_id,
                        answer.0,
                        answer.1,
                    ));
                    answer
                },
            }
        },
    }
}

} // verus!
