//! The program that the browser starts to pass messages on to the application.

use crate::blob_store;
use crate::blob_store::join_path;
use crate::browser_metadata::protocol;
use crate::browser_metadata::protocol::LineKind;
use crate::json;
use crate::json::{read_member, rewrite_compactly, JsonMember, MemberView};
use crate::text;
use crate::text::same_text;
use vstd::prelude::*;

verus! {

/// The largest message that is taken, in bytes.
pub const MAX_MESSAGE: usize = 16_384;

/// Why a message was not passed on.
#[derive(Debug, Clone, Copy, PartialEq, Eq, Structural)]
pub enum HostError {
    AppNotRunning,
    InvalidMessage,
    HostUnavailable,
}

impl HostError {
    pub open spec fn name(self) -> Seq<char> {
        match self {
            HostError::AppNotRunning => "app_not_running"@,
            HostError::InvalidMessage => "invalid_message"@,
            HostError::HostUnavailable => "host_unavailable"@,
        }
    }

    pub fn code(&self) -> (code: &'static str)
        ensures
            code@ == self.name(),
    {
        match self {
            HostError::AppNotRunning => "app_not_running",
            HostError::InvalidMessage => "invalid_message",
            HostError::HostUnavailable => "host_unavailable",
        }
    }
}

/// Where the application listens, given the data directory or the home directory.
pub fn data_dir(data_home: Option<&str>, home: Option<&str>) -> (path: Option<String>)
    ensures
        text::text_of(path) == match (text::slice_of(data_home), text::slice_of(home)) {
            (Some(data), _) => Some(blob_store::joined(data, "kitsupin/native.sock"@)),
            (None, Some(home)) => Some(
                blob_store::joined(
                    blob_store::joined(home, ".local/share"@),
                    "kitsupin/native.sock"@,
                ),
            ),
            (None, None) => None,
        },
{
    match (data_home, home) {
        (Some(data), _) => Some(join_path(data, "kitsupin/native.sock")),
        (None, Some(home)) => {
            let data = join_path(home, ".local/share");
            Some(join_path(data.as_str(), "kitsupin/native.sock"))
        },
        (None, None) => None,
    }
}

/// The length of a message, if it is not too large to be read.
pub fn accept_length(length: u32) -> (size: Option<usize>)
    ensures
        size == (if length <= MAX_MESSAGE {
            Some(length as usize)
        } else {
            None::<usize>
        }),
{
    if length as usize <= MAX_MESSAGE {
        Some(length as usize)
    } else {
        None
    }
}

/// The first version of a message about an event.
pub open spec fn announces(
    version: Result<Option<MemberView>, Seq<char>>,
    event: Result<Option<MemberView>, Seq<char>>,
    name: Seq<char>,
) -> bool {
    &&& version matches Ok(Some(MemberView::Count(count))) && count == 1
    &&& event matches Ok(Some(MemberView::Text(text))) && text == name
}

/// Whether the members of a message announce an event.
pub fn is_event(
    version: &Result<Option<JsonMember>, String>,
    event: &Result<Option<JsonMember>, String>,
    name: &str,
) -> (answer: bool)
    ensures
        answer == announces(json::member_view(*version), json::member_view(*event), name@),
{
    let versioned = match version {
        Ok(Some(JsonMember::Count(count))) => *count == 1,
        _ => false,
    };
    let named = match event {
        Ok(Some(JsonMember::Text(text))) => same_text(text.as_str(), name),
        _ => false,
    };
    versioned && named
}

/// A message of this kind.
pub open spec fn is_message(document: Seq<char>, name: Seq<char>) -> bool {
    announces(json::json_member(document, "version"@), json::json_member(document, "event"@), name)
}

/// A sign of life of the extension.
pub fn is_status_probe(document: &str) -> (answer: bool)
    ensures
        answer == is_message(document@, "status"@),
{
    is_event(&read_member(document, "version"), &read_member(document, "event"), "status")
}

/// A report of a copy.
pub fn is_copy_event(document: &str) -> (answer: bool)
    ensures
        answer == is_message(document@, "copy"@),
{
    is_event(&read_member(document, "version"), &read_member(document, "event"), "copy")
}

/// The line that is passed on for a message.
pub open spec fn line_of(document: Seq<char>) -> Option<Seq<char>> {
    match json::compact_json(document) {
        Some(compact) => Some(compact.push('\n')),
        None => None,
    }
}

/// What comes of a message once the application has answered at the socket.
pub open spec fn passed_on<S, W: FnOnce(S, &str) -> bool>(
    document: Seq<char>,
    connection: S,
    send: W,
    result: Result<(), HostError>,
) -> bool {
    if !is_message(document, "status"@) && !is_message(document, "copy"@) {
        result == Err::<(), HostError>(HostError::InvalidMessage)
    } else {
        match line_of(document) {
            None => result == Err::<(), HostError>(HostError::HostUnavailable),
            Some(text) => exists|line: &str, sent: bool|
                {
                    &&& #[trigger] call_ensures(send, (connection, line), sent)
                    &&& line@ == text
                    &&& result == (if sent {
                        Ok::<(), HostError>(())
                    } else {
                        Err::<(), HostError>(HostError::HostUnavailable)
                    })
                },
        }
    }
}

/// What comes of a message.
pub open spec fn handled<S, C: FnOnce(&str) -> Option<S>, W: FnOnce(S, &str) -> bool>(
    body: Option<Seq<char>>,
    socket: Option<Seq<char>>,
    connect: C,
    send: W,
    result: Result<(), HostError>,
) -> bool {
    if body is None || json::json_member(body->0, "event"@) is Err || socket is None {
        result == Err::<(), HostError>(HostError::HostUnavailable)
    } else {
        exists|path: &str, connection: Option<S>|
            {
                &&& #[trigger] call_ensures(connect, (path,), connection)
                &&& path@ == socket->0
                &&& match connection {
                    None => result == Err::<(), HostError>(HostError::AppNotRunning),
                    Some(connection) => passed_on(body->0, connection, send, result),
                }
            }
    }
}

/// Passes a message on to the application. `body` is what was read, if it was read and is text;
/// `connect` reaches the application at a socket, and `send` writes a line to it.
pub fn handle<S, C: FnOnce(&str) -> Option<S>, W: FnOnce(S, &str) -> bool>(
    body: Option<&str>,
    socket: Option<&str>,
    connect: C,
    send: W,
) -> (result: Result<(), HostError>)
    requires
        forall|path: &str| #[trigger] call_requires(connect, (path,)),
        forall|connection: S, line: &str| #[trigger] call_requires(send, (connection, line)),
    ensures
        handled(text::slice_of(body), text::slice_of(socket), connect, send, result),
        result is Ok ==> json::restates(
            text::slice_of(body)->0,
            json::compact_json(text::slice_of(body)->0),
        ),
{
    let document = match body {
        Some(document) => document,
        None => return Err(HostError::HostUnavailable),
    };
    let event = read_member(document, "event");
    if event.is_err() {
        return Err(HostError::HostUnavailable);
    }
    let path = match socket {
        Some(path) => path,
        None => return Err(HostError::HostUnavailable),
    };
    let connection = match connect(path) {
        Some(connection) => connection,
        None => return Err(HostError::AppNotRunning),
    };
    let ghost reached = connection;
    let result = if !is_status_probe(document) && !is_copy_event(document) {
        Err(HostError::InvalidMessage)
    } else {
        match rewrite_compactly(document) {
            None => Err(HostError::HostUnavailable),
            Some(compact) => {
                let mut line = compact;
                line.push('\n');
                if send(connection, line.as_str()) {
                    Ok(())
                } else {
                    Err(HostError::HostUnavailable)
                }
            },
        }
    };
    assert(passed_on(document@, reached, send, result));
    result
}

/// The answer to the browser.
pub open spec fn response_text(result: Result<(), HostError>) -> Seq<char> {
    match result {
        Ok(_) => "{\"ok\":true,\"version\":1}"@,
        Err(error) => "{\"error\":\""@ + error.name() + "\",\"ok\":false,\"version\":1}"@,
    }
}

pub fn response(result: &Result<(), HostError>) -> (answer: String)
    ensures
        answer@ == response_text(*result),
{
    match result {
        Ok(_) => "{\"ok\":true,\"version\":1}".to_owned(),
        Err(error) => {
            let mut answer = "{\"error\":\"".to_owned();
            answer.push_str(error.code());
            answer.push_str("\",\"ok\":false,\"version\":1}");
            answer
        },
    }
}

/// Only the two kinds of messages are passed on.
pub proof fn unknown_messages_are_refused<S, W: FnOnce(S, &str) -> bool>(
    document: Seq<char>,
    connection: S,
    send: W,
    result: Result<(), HostError>,
)
    requires
        passed_on(document, connection, send, result),
        result is Ok,
    ensures
        is_message(document, "status"@) || is_message(document, "copy"@),
{
}

/// A message that is passed on is understood by the application as what it is, if its line is not
/// too long.
pub proof fn passed_on_messages_are_understood(document: Seq<char>)
    requires
        json::restates(document, json::compact_json(document)),
        json::compact_json(document) is Some,
        text::utf8_len(json::compact_json(document)->0) <= protocol::MAX_LINE_BYTES,
    ensures
        ({
            let line = json::compact_json(document)->0;
            let kind = protocol::kind_of(
                text::utf8_len(line),
                json::json_member(line, "event"@),
            );
            &&& is_message(document, "status"@) ==> kind == LineKind::Status
            &&& is_message(document, "copy"@) ==> kind == LineKind::Copy
        }),
{
    reveal_strlit("status");
    reveal_strlit("copy");
    assert("status"@.len() != "copy"@.len());
}

} // verus!
