//! How the application and the browser find each other, and what is told about it.

use crate::blob_store;
use crate::commands;
use crate::commands::StartMode;
use crate::diagnostics;
use crate::diagnostics::manifest;
use crate::diagnostics::manifest::{FileMode, ManifestProblem};
use crate::diagnostics::status;
use crate::diagnostics::status::{IntegrationFacts, ProblemView};
use crate::json;
use crate::json::MemberView;
use crate::native_host;
use crate::native_host::HostError;
use crate::text;
use vstd::prelude::*;

verus! {

/// A message is of a kind exactly if it is of the first version and its event names the kind.
pub proof fn messages_name_their_kind(document: Seq<char>, name: Seq<char>)
    ensures
        native_host::is_message(document, name) <==> json::json_member(document, "version"@) == Ok::<
            Option<MemberView>,
            Seq<char>,
        >(Some(MemberView::Count(1))) && json::json_member(document, "event"@) == Ok::<
            Option<MemberView>,
            Seq<char>,
        >(Some(MemberView::Text(name))),
{
}

/// A message is passed on as one line.
pub proof fn messages_are_passed_on_as_lines(document: Seq<char>)
    ensures
        match json::compact_json(document) {
            Some(compact) => native_host::line_of(document) == Some(compact + seq!['\n']),
            None => native_host::line_of(document) is None,
        },
{
    if let Some(compact) = json::compact_json(document) {
        assert(compact.push('\n') =~= compact + seq!['\n']);
    }
}

/// What is answered to the browser.
pub proof fn the_browser_is_answered(error: HostError)
    ensures
        native_host::response_text(Ok(())) == "{\"ok\":true,\"version\":1}"@,
        native_host::response_text(Err(error)) == "{\"error\":\""@ + (match error {
            HostError::AppNotRunning => "app_not_running"@,
            HostError::InvalidMessage => "invalid_message"@,
            HostError::HostUnavailable => "host_unavailable"@,
        }) + "\",\"ok\":false,\"version\":1}"@,
{
}

/// A file may be executed exactly if it is a regular one and the owner, the group or the others may
/// execute it.
pub proof fn executable_files_have_a_bit(file: FileMode)
    ensures
        file.executable() <==> file.is_file && (file.mode & 0o100 != 0 || file.mode & 0o010 != 0
            || file.mode & 0o001 != 0),
{
    let mode: u32 = file.mode;
    assert(mode & 0o111 != 0 <==> (mode & 0o100 != 0 || mode & 0o010 != 0 || mode & 0o001 != 0))
        by (bit_vector);
}

/// An identifier of an extension has thirty-two letters from a to p.
pub proof fn identifiers_have_32_letters(id: Seq<char>)
    ensures
        manifest::is_extension_id(id) <==> id.len() == 32 && forall|i: int|
            0 <= i < 32 ==> 'a' <= #[trigger] id[i] && id[i] <= 'p',
{
}

/// An origin names an extension exactly if it is the origin of that extension.
pub proof fn origins_name_one_extension(id: Seq<char>, origin: Seq<char>)
    ensures
        manifest::origin_id(Some(origin)) == Some(id) <==> manifest::is_extension_id(id) && origin
            == "chrome-extension://"@ + id + "/"@,
        manifest::origin_id(None) is None,
{
    reveal_strlit("/");
    let head = "chrome-extension://"@.len() as int;
    if manifest::origin_id(Some(origin)) == Some(id) {
        assert(origin =~= "chrome-extension://"@ + id + "/"@);
    }
    if manifest::is_extension_id(id) && origin == "chrome-extension://"@ + id + "/"@ {
        assert(origin.take(head) =~= "chrome-extension://"@);
        assert(origin.subrange(head, head + 32) =~= id);
    }
}

/// Of several origins the first that names an extension counts.
pub proof fn the_first_origin_counts(items: Seq<Option<Seq<char>>>, at: int)
    ensures
        (forall|k: int| 0 <= k < items.len() ==> manifest::origin_id(#[trigger] items[k]) is None)
            ==> manifest::first_extension(items) is None,
        0 <= at < items.len() && manifest::origin_id(items[at]) is Some && (forall|k: int|
            0 <= k < at ==> manifest::origin_id(#[trigger] items[k]) is None)
            ==> manifest::first_extension(items) == manifest::origin_id(items[at]),
    decreases items.len(),
{
    if items.len() > 0 {
        let rest = items.skip(1);
        assert forall|k: int| 0 <= k < rest.len() implies #[trigger] rest[k] == items[k + 1] by {}
        the_first_origin_counts(rest, at - 1);
        if forall|k: int|
            0 <= k < items.len() ==> manifest::origin_id(#[trigger] items[k]) is None {
            assert(manifest::origin_id(items[0]) is None);
            assert forall|k: int| 0 <= k < rest.len() implies manifest::origin_id(
                #[trigger] rest[k],
            ) is None by {
                assert(manifest::origin_id(items[k + 1]) is None);
            }
        }
        if 0 < at < items.len() && (forall|k: int|
            0 <= k < at ==> manifest::origin_id(#[trigger] items[k]) is None) {
            assert(manifest::origin_id(items[0]) is None);
            assert forall|k: int| 0 <= k < at - 1 implies manifest::origin_id(
                #[trigger] rest[k],
            ) is None by {
                assert(manifest::origin_id(items[k + 1]) is None);
            }
        }
    }
}

/// A manifest lets an extension in exactly if it names this host, the standard streams and an
/// executable file, and if the extension is the first that its origins name.
pub proof fn good_manifests_let_an_extension_in(
    name: Seq<char>,
    kind: Seq<char>,
    path: Seq<char>,
    items: Seq<Option<Seq<char>>>,
    file: Option<FileMode>,
    id: Seq<char>,
)
    ensures
        ({
            let result = manifest::verdict(
                Ok(Some(MemberView::Text(name))),
                Ok(Some(MemberView::Text(kind))),
                Ok(Some(MemberView::Text(path))),
                Ok(Some(MemberView::Texts(items))),
                file,
            );
            let is_host = name == "io.github.mootxed.kitsupin.native"@;
            let is_stdio = kind == "stdio"@;
            let can_run = file is Some && file->0.is_file && file->0.mode & 0o111 != 0;
            &&& result == Ok::<Seq<char>, ManifestProblem>(id) <==> is_host && is_stdio
                && path.len() > 0 && can_run && manifest::first_extension(items) == Some(id)
            &&& !is_host ==> result == Err::<Seq<char>, ManifestProblem>(
                ManifestProblem::WrongName(name),
            )
            &&& is_host && !is_stdio ==> result == Err::<Seq<char>, ManifestProblem>(
                ManifestProblem::WrongType(kind),
            )
            &&& is_host && is_stdio && path.len() == 0 ==> result == Err::<
                Seq<char>,
                ManifestProblem,
            >(ManifestProblem::NoPath)
            &&& is_host && is_stdio && path.len() > 0 && file is None ==> result == Err::<
                Seq<char>,
                ManifestProblem,
            >(ManifestProblem::MissingFile(path))
            &&& is_host && is_stdio && path.len() > 0 && file is Some && !can_run ==> result
                == Err::<Seq<char>, ManifestProblem>(ManifestProblem::NotExecutable(path))
            &&& is_host && is_stdio && path.len() > 0 && can_run && manifest::first_extension(
                items,
            ) is None ==> result == Err::<Seq<char>, ManifestProblem>(
                ManifestProblem::NoExtensionId,
            )
        }),
{
}

/// A manifest that is no JSON, or lacks a member, lets no extension in.
pub proof fn bad_manifests_let_nobody_in(
    name: Result<Option<MemberView>, Seq<char>>,
    kind: Result<Option<MemberView>, Seq<char>>,
    path: Result<Option<MemberView>, Seq<char>>,
    origins: Result<Option<MemberView>, Seq<char>>,
    file: Option<FileMode>,
)
    requires
        !(name matches Ok(Some(MemberView::Text(_)))) || !(kind matches Ok(
            Some(MemberView::Text(_)),
        )) || !(path matches Ok(Some(MemberView::Text(_)))) || !(origins matches Ok(
            Some(MemberView::Texts(_)),
        )),
    ensures
        manifest::verdict(name, kind, path, origins, file) is Err,
        name matches Err(reason) ==> manifest::verdict(name, kind, path, origins, file) == Err::<
            Seq<char>,
            ManifestProblem,
        >(ManifestProblem::BadJson(reason)),
{
    reveal_strlit("io.github.mootxed.kitsupin.native");
    reveal_strlit("stdio");
    assert("io.github.mootxed.kitsupin.native"@.len() > 0);
    assert("stdio"@.len() > 0);
}

/// A manifest can be written exactly if the identifier is one, the host was found and there is a
/// place for it.
pub proof fn manifests_are_written_for_a_host(
    id: Seq<char>,
    host: Option<Seq<char>>,
    paths: Seq<Seq<char>>,
)
    ensures
        ({
            let problem = manifest::save_problem(id, host, paths);
            let is_id = manifest::is_extension_id(id);
            &&& problem is None <==> is_id && host is Some && paths.len() > 0
            &&& !is_id ==> problem == Some(ManifestProblem::BadIdToSave(id))
            &&& is_id && host is None ==> problem == Some(
                ManifestProblem::HostMissing("/usr/lib/kitsupin/kitsupin-native-host"@),
            )
            &&& is_id && host is Some && paths.len() == 0 ==> problem == Some(
                ManifestProblem::NoHomeDirectory,
            )
        }),
{
}

/// A written manifest says what the browser needs: the name of this host, its path, the standard
/// streams, and the extension as the only origin.
pub proof fn written_manifests_say_what_is_needed(host: Seq<char>, id: Seq<char>)
    ensures
        ({
            let members = manifest::manifest_members(host, id);
            &&& members.contains(
                ("name"@, MemberView::Text("io.github.mootxed.kitsupin.native"@)),
            )
            &&& members.contains(("path"@, MemberView::Text(host)))
            &&& members.contains(("type"@, MemberView::Text("stdio"@)))
            &&& members.contains(
                (
                    "allowed_origins"@,
                    MemberView::Texts(seq![Some("chrome-extension://"@ + id + "/"@)]),
                ),
            )
            &&& members.len() == 5
        }),
{
    let members = manifest::manifest_members(host, id);
    assert(members[0] == ("name"@, MemberView::Text("io.github.mootxed.kitsupin.native"@)));
    assert(members[2] == ("path"@, MemberView::Text(host)));
    assert(members[3] == ("type"@, MemberView::Text("stdio"@)));
    assert(members[4] == (
        "allowed_origins"@,
        MemberView::Texts(seq![Some("chrome-extension://"@ + id + "/"@)]),
    ));
}

/// Of the places at which a manifest was to be written the first at which it was is told, else the
/// last failure.
pub proof fn the_first_place_written_is_told(
    paths: Seq<Seq<char>>,
    failures: Seq<Option<Seq<char>>>,
    at: int,
)
    requires
        paths.len() == failures.len(),
        paths.len() > 0,
    ensures
        0 <= at < paths.len() && failures[at] is None && (forall|k: int|
            0 <= k < at ==> (#[trigger] failures[k]) is Some) ==> manifest::write_outcome(
            paths,
            failures,
        ) == Ok::<Seq<char>, ManifestProblem>(paths[at]),
        (forall|k: int| 0 <= k < paths.len() ==> (#[trigger] failures[k]) is Some)
            ==> manifest::write_outcome(paths, failures) == Err::<Seq<char>, ManifestProblem>(
            ManifestProblem::NotWritten(failures[failures.len() - 1]->0),
        ),
{
    lemma_first_written(paths, failures, at);
}

proof fn lemma_first_written(paths: Seq<Seq<char>>, failures: Seq<Option<Seq<char>>>, at: int)
    requires
        paths.len() == failures.len(),
    ensures
        0 <= at < paths.len() && failures[at] is None && (forall|k: int|
            0 <= k < at ==> (#[trigger] failures[k]) is Some) ==> manifest::first_written(
            paths,
            failures,
        ) == Some(paths[at]),
        (forall|k: int| 0 <= k < paths.len() ==> (#[trigger] failures[k]) is Some)
            ==> manifest::first_written(paths, failures) is None,
    decreases paths.len(),
{
    if paths.len() > 0 {
        let rest = failures.skip(1);
        assert forall|k: int| 0 <= k < rest.len() implies #[trigger] rest[k] == failures[k + 1] by {}
        lemma_first_written(paths.skip(1), rest, at - 1);
        if forall|k: int| 0 <= k < paths.len() ==> (#[trigger] failures[k]) is Some {
            assert(failures[0] is Some);
            assert forall|k: int| 0 <= k < rest.len() implies (#[trigger] rest[k]) is Some by {
                assert(failures[k + 1] is Some);
            }
        }
        if 0 < at < paths.len() && (forall|k: int|
            0 <= k < at ==> (#[trigger] failures[k]) is Some) {
            assert(failures[0] is Some);
            assert forall|k: int| 0 <= k < at - 1 implies (#[trigger] rest[k]) is Some by {
                assert(failures[k + 1] is Some);
            }
        }
    }
}

/// The manifests of a user lie below the configuration directory, that of Chrome first.
pub proof fn manifests_lie_in_the_configuration(config: Seq<char>)
    requires
        config.len() > 0,
        config.last() != '/',
    ensures
        diagnostics::user_manifests(Some(config)) == seq![
            config + "/google-chrome/NativeMessagingHosts/"@ + "io.github.mootxed.kitsupin.native"@
                + ".json"@,
            config + "/chromium/NativeMessagingHosts/"@ + "io.github.mootxed.kitsupin.native"@
                + ".json"@,
        ],
        diagnostics::user_manifests(None).len() == 0,
{
    reveal_strlit("google-chrome/NativeMessagingHosts");
    reveal_strlit("/google-chrome/NativeMessagingHosts/");
    reveal_strlit("chromium/NativeMessagingHosts");
    reveal_strlit("/chromium/NativeMessagingHosts/");
    let file = "io.github.mootxed.kitsupin.native"@ + ".json"@;
    let chrome = "google-chrome/NativeMessagingHosts"@;
    let chromium = "chromium/NativeMessagingHosts"@;
    let found = diagnostics::user_manifests(Some(config));
    assert(diagnostics::USER_MANIFEST_DIRS@[0]@ == chrome);
    assert(diagnostics::USER_MANIFEST_DIRS@[1]@ == chromium);
    assert(found[0] =~= config + "/google-chrome/NativeMessagingHosts/"@
        + "io.github.mootxed.kitsupin.native"@ + ".json"@);
    assert(found[1] =~= config + "/chromium/NativeMessagingHosts/"@
        + "io.github.mootxed.kitsupin.native"@ + ".json"@);
}

/// The path is that of a browser in this directory.
pub open spec fn is_browser_in(directory: Seq<char>, path: Seq<char>) -> bool {
    ||| path == blob_store::joined(directory, "google-chrome"@)
    ||| path == blob_store::joined(directory, "google-chrome-stable"@)
    ||| path == blob_store::joined(directory, "chromium"@)
    ||| path == blob_store::joined(directory, "chromium-browser"@)
}

/// A browser is looked for in the directory of the system's programs and in every directory of the
/// search path, under four names, and nowhere else.
pub proof fn browsers_are_looked_for_on_the_path(search: Seq<Seq<char>>, path: Seq<char>)
    ensures
        diagnostics::browser_candidates(search).contains(path) <==> is_browser_in("/usr/bin"@, path)
            || exists|i: int| 0 <= i < search.len() && is_browser_in(#[trigger] search[i], path),
    decreases search.len(),
{
    let all = diagnostics::browser_candidates(search);
    if search.len() == 0 {
        lemma_in_directory("/usr/bin"@, path);
    } else {
        let rest = search.drop_last();
        let last = search.last();
        let before = diagnostics::browser_candidates(rest);
        browsers_are_looked_for_on_the_path(rest, path);
        lemma_in_directory(last, path);
        assert(all == before + diagnostics::in_directory(last));
        lemma_joined_contains(before, diagnostics::in_directory(last), path);
        assert(search[search.len() - 1] == last);
        if before.contains(path) && !is_browser_in("/usr/bin"@, path) {
            let i = choose|i: int| 0 <= i < rest.len() && is_browser_in(#[trigger] rest[i], path);
            assert(is_browser_in(search[i], path));
        }
        if exists|i: int| 0 <= i < search.len() && is_browser_in(#[trigger] search[i], path) {
            let i = choose|i: int|
                0 <= i < search.len() && is_browser_in(#[trigger] search[i], path);
            if i < rest.len() {
                assert(is_browser_in(rest[i], path));
            }
        }
    }
}

proof fn lemma_joined_contains<A>(a: Seq<A>, b: Seq<A>, x: A)
    ensures
        (a + b).contains(x) <==> a.contains(x) || b.contains(x),
{
    let all = a + b;
    if a.contains(x) {
        let i = choose|i: int| 0 <= i < a.len() && a[i] == x;
        assert(all[i] == x);
    }
    if b.contains(x) {
        let i = choose|i: int| 0 <= i < b.len() && b[i] == x;
        assert(all[a.len() + i] == x);
    }
    if all.contains(x) {
        let i = choose|i: int| 0 <= i < all.len() && all[i] == x;
        if i < a.len() {
            assert(a[i] == x);
        } else {
            assert(b[i - a.len()] == x);
        }
    }
}

proof fn lemma_in_directory(d: Seq<char>, path: Seq<char>)
    ensures
        diagnostics::in_directory(d).contains(path) <==> is_browser_in(d, path),
{
    let four = diagnostics::in_directory(d);
    assert(four[0] == blob_store::joined(d, "google-chrome"@));
    assert(four[1] == blob_store::joined(d, "google-chrome-stable"@));
    assert(four[2] == blob_store::joined(d, "chromium"@));
    assert(four[3] == blob_store::joined(d, "chromium-browser"@));
    if four.contains(path) {
        let i = choose|i: int| 0 <= i < four.len() && four[i] == path;
        assert(i == 0 || i == 1 || i == 2 || i == 3);
    }
}

/// The host is looked for where the package puts it, then where the environment says, then beside
/// the running program.
pub proof fn hosts_are_looked_for_in_order(named: Seq<char>, directory: Seq<char>)
    ensures
        diagnostics::host_candidates(None, None) == seq!["/usr/lib/kitsupin/kitsupin-native-host"@],
        diagnostics::host_candidates(Some(named), None) == seq![
            "/usr/lib/kitsupin/kitsupin-native-host"@,
            named,
        ],
        diagnostics::host_candidates(None, Some(directory)) == seq![
            "/usr/lib/kitsupin/kitsupin-native-host"@,
            blob_store::joined(directory, "kitsupin-native-host"@),
        ],
        diagnostics::host_candidates(Some(named), Some(directory)) == seq![
            "/usr/lib/kitsupin/kitsupin-native-host"@,
            named,
            blob_store::joined(directory, "kitsupin-native-host"@),
        ],
{
    assert(diagnostics::host_candidates(Some(named), None) =~= seq![
        "/usr/lib/kitsupin/kitsupin-native-host"@,
        named,
    ]);
    assert(diagnostics::host_candidates(None, Some(directory)) =~= seq![
        "/usr/lib/kitsupin/kitsupin-native-host"@,
        blob_store::joined(directory, "kitsupin-native-host"@),
    ]);
    assert(diagnostics::host_candidates(Some(named), Some(directory)) =~= seq![
        "/usr/lib/kitsupin/kitsupin-native-host"@,
        named,
        blob_store::joined(directory, "kitsupin-native-host"@),
    ]);
}

/// The session is one of X11 if it says so in any case, or, if it says nothing, if there is a
/// display.
pub proof fn sessions_say_what_they_are(facts: IntegrationFacts)
    ensures
        facts.session_type matches Some(kind) ==> (facts.is_x11() <==> text::ascii_lowercase(kind@)
            == text::ascii_lowercase("x11"@)),
        facts.session_type is None ==> facts.is_x11() == facts.has_display,
{
}

/// The integration is configured if the socket is there and some manifest lets an extension in; of
/// several manifests those for all users count first, and Chrome's before Chromium's.
pub proof fn manifests_count_in_order(facts: IntegrationFacts)
    ensures
        ({
            let a = facts.system_chrome.extension_id;
            let b = facts.system_chromium.extension_id;
            let c = facts.user_chrome.extension_id;
            let d = facts.user_chromium.extension_id;
            &&& facts.chrome_valid() <==> a is Some || c is Some
            &&& facts.chromium_valid() <==> b is Some || d is Some
            &&& facts.manifest_valid() <==> a is Some || b is Some || c is Some || d is Some
            &&& facts.configured() <==> facts.native_socket_available && (a is Some || b is Some
                || c is Some || d is Some)
            &&& facts.manifest_exists() <==> facts.system_chrome.exists
                || facts.system_chromium.exists || facts.user_chrome.exists
                || facts.user_chromium.exists
            &&& a matches Some(id) ==> facts.extension() == Some(id@)
            &&& a is None ==> (b matches Some(id) ==> facts.extension() == Some(id@))
            &&& a is None && b is None ==> (c matches Some(id) ==> facts.extension() == Some(id@))
            &&& a is None && b is None && c is None ==> (d matches Some(id) ==> facts.extension()
                == Some(id@))
            &&& a is None && b is None && c is None && d is None ==> facts.extension() is None
        }),
{
}

/// A problem of this name is told.
pub open spec fn is_told(facts: IntegrationFacts, id: Seq<char>) -> bool {
    exists|k: int|
        0 <= k < facts.reported(status::CHECKS as int).len() && (#[trigger] facts.reported(
            status::CHECKS as int,
        )[k]).id == id
}

/// What is told is what of the list holds.
proof fn lemma_reported(facts: IntegrationFacts, count: int, problem: ProblemView)
    requires
        0 <= count <= 10,
    ensures
        facts.reported(count).contains(problem) <==> exists|i: int|
            0 <= i < count && (#[trigger] facts.checklist()[i]).0 && facts.checklist()[i].1
                == problem,
    decreases count,
{
    if count > 0 {
        lemma_reported(facts, count - 1, problem);
        let before = facts.reported(count - 1);
        let all = facts.reported(count);
        let entry = facts.checklist()[count - 1];
        if before.contains(problem) {
            let k = choose|k: int| 0 <= k < before.len() && before[k] == problem;
            assert(all[k] == problem);
        }
        if entry.0 {
            assert(all[before.len() as int] == entry.1);
        }
        if all.contains(problem) {
            let k = choose|k: int| 0 <= k < all.len() && all[k] == problem;
            if k < before.len() {
                assert(before[k] == problem);
            }
        }
    }
}

/// Whether the entry at a position is told.
proof fn lemma_told(facts: IntegrationFacts, i: int)
    requires
        0 <= i < 10,
        forall|j: int|
            0 <= j < 10 && j != i ==> (#[trigger] facts.checklist()[j]).1.id
                != facts.checklist()[i].1.id,
    ensures
        is_told(facts, facts.checklist()[i].1.id) <==> facts.checklist()[i].0,
{
    let entry = facts.checklist()[i];
    let all = facts.reported(status::CHECKS as int);
    if entry.0 {
        lemma_reported(facts, 10, entry.1);
        assert(all.contains(entry.1));
        let k = choose|k: int| 0 <= k < all.len() && all[k] == entry.1;
        assert(all[k].id == entry.1.id);
    }
    if is_told(facts, entry.1.id) {
        let k = choose|k: int| 0 <= k < all.len() && (#[trigger] all[k]).id == entry.1.id;
        lemma_reported(facts, 10, all[k]);
        assert(all.contains(all[k]));
    }
}

/// Each problem is told exactly if it is there.
#[verifier::rlimit(40)]
pub proof fn problems_are_told_if_they_are_there(facts: IntegrationFacts)
    ensures
        is_told(facts, "os_not_linux"@) <==> !facts.is_linux,
        is_told(facts, "wayland_session"@) <==> !facts.is_x11(),
        is_told(facts, "chrome_missing"@) <==> !facts.chrome_detected,
        is_told(facts, "native_host_missing"@) <==> facts.native_host is None,
        is_told(facts, "native_host_not_executable"@) <==> facts.native_host == Some(false),
        is_told(facts, "manifest_missing"@) <==> !facts.manifest_exists(),
        is_told(facts, "manifest_invalid"@) <==> facts.manifest_exists() && !facts.manifest_valid(),
        is_told(facts, "socket_unavailable"@) <==> !facts.native_socket_available,
        is_told(facts, "shortcut_conflict"@) <==> facts.shortcut_registered == Some(false),
        is_told(facts, "autostart_disabled"@) <==> !facts.autostart_enabled,
{
    reveal_strlit("os_not_linux");
    reveal_strlit("wayland_session");
    reveal_strlit("chrome_missing");
    reveal_strlit("native_host_missing");
    reveal_strlit("native_host_not_executable");
    reveal_strlit("manifest_missing");
    reveal_strlit("manifest_invalid");
    reveal_strlit("socket_unavailable");
    reveal_strlit("shortcut_conflict");
    reveal_strlit("autostart_disabled");
    assert("manifest_missing"@[9] != "manifest_invalid"@[9]);
    assert("socket_unavailable"@[0] != "autostart_disabled"@[0]);
    assert(facts.checklist().len() == 10);
    assert(facts.checklist()[0].1.id == "os_not_linux"@);
    assert(facts.checklist()[1].1.id == "wayland_session"@);
    assert(facts.checklist()[2].1.id == "chrome_missing"@);
    assert(facts.checklist()[3].1.id == "native_host_missing"@);
    assert(facts.checklist()[4].1.id == "native_host_not_executable"@);
    assert(facts.checklist()[5].1.id == "manifest_missing"@);
    assert(facts.checklist()[6].1.id == "manifest_invalid"@);
    assert(facts.checklist()[7].1.id == "socket_unavailable"@);
    assert(facts.checklist()[8].1.id == "shortcut_conflict"@);
    assert(facts.checklist()[9].1.id == "autostart_disabled"@);
    lemma_told(facts, 0);
    lemma_told(facts, 1);
    lemma_told(facts, 2);
    lemma_told(facts, 3);
    lemma_told(facts, 4);
    lemma_told(facts, 5);
    lemma_told(facts, 6);
    lemma_told(facts, 7);
    lemma_told(facts, 8);
    lemma_told(facts, 9);
}

/// How severe each problem is, what is said of it, and what can be done about it.
pub proof fn problems_have_a_severity(facts: IntegrationFacts, k: int)
    requires
        0 <= k < facts.reported(status::CHECKS as int).len(),
    ensures
        ({
            let problem = facts.reported(status::CHECKS as int)[k];
            let severity = problem.severity;
            let can_act = problem.action;
            ||| problem.id == "os_not_linux"@ && severity == "error"@ && problem.title
                == "Операционная система не Linux"@ && problem.description
                == "KitsuPin официально поддерживается только в Linux (Ubuntu 24.04)."@ && can_act is None
            ||| problem.id == "wayland_session"@ && severity == "warning"@ && problem.title
                == "Сеанс Wayland обнаружен"@ && problem.description
                == "В сеансе Wayland глобальные горячие клавиши и доступ к буферу обмена X11 могут работать с ограничениями. Рекомендуется сеанс X11."@ && can_act is None
            ||| problem.id == "chrome_missing"@ && severity == "warning"@ && problem.title
                == "Google Chrome не найден"@ && problem.description
                == "Установите Google Chrome для автоматической привязки заголовков страниц и доменов к истории буфера."@ && can_act is None
            ||| problem.id == "native_host_missing"@ && severity == "error"@ && problem.title
                == "Native Host не установлен"@ && problem.description
                == ("Файл бинарного хоста не найден по пути "@ + diagnostics::SYSTEM_NATIVE_HOST_PATH@ + "."@) && can_act is None
            ||| problem.id == "native_host_not_executable"@ && severity == "error"@ && problem.title
                == "Нет прав на исполнение Native Host"@ && problem.description
                == ("Бинарный файл kitsupin-native-host не имеет флага исполняемого файла (+x)."@)
                && can_act is None
            ||| problem.id == "manifest_missing"@ && severity == "warning"@ && problem.title
                == "Native Messaging manifest отсутствует"@ && problem.description
                == "Chrome-расширение не сможет подключиться к KitsuPin. Введите ID расширения или используйте production .deb пакет."@ && can_act == Some(
                "configure_id"@,
            )
            ||| problem.id == "manifest_invalid"@ && severity == "error"@ && problem.title
                == "Некорректный Native Messaging manifest"@ && problem.description
                == "Манифест найден, но содержит недействительный ID расширения или путь к хосту."@ && can_act == Some(
                "configure_id"@,
            )
            ||| problem.id == "socket_unavailable"@ && severity == "error"@ && problem.title
                == "Сокет приложения недоступен"@ && problem.description
                == "Фоновый поток чтения метаданных браузера не смог открыть UNIX socket."@ && can_act is None
            ||| problem.id == "shortcut_conflict"@ && severity == "warning"@ && problem.title
                == "Горячая клавиша не зарегистрирована"@ && problem.description
                == "Глобальная сочетание клавиш занято другим приложением или не поддерживается окружением."@ && can_act == Some(
                "open_shortcut_settings"@,
            )
            ||| problem.id == "autostart_disabled"@ && severity == "info"@ && problem.title
                == "Автозапуск отключён"@ && problem.description
                == "KitsuPin не будет запускаться автоматически при входе в систему."@ && can_act == Some(
                "enable_autostart"@,
            )
        }),
{
    let all = facts.reported(status::CHECKS as int);
    lemma_reported(facts, 10, all[k]);
    assert(all.contains(all[k]));
    let i = choose|i: int|
        0 <= i < 10 && (#[trigger] facts.checklist()[i]).0 && facts.checklist()[i].1 == all[k];
    assert(i == 0 || i == 1 || i == 2 || i == 3 || i == 4 || i == 5 || i == 6 || i == 7 || i == 8
        || i == 9);
}

/// The program is the browser's host if its first argument names an extension, whatever else is
/// asked for; else it helps, tells its version, diagnoses or runs, as the first of these that is
/// asked for.
pub proof fn arguments_say_what_to_do(arguments: Seq<Seq<char>>)
    ensures
        ({
            let mode = commands::mode_of(arguments);
            let by_browser = arguments.len() > 1 && text::stands_at(
                arguments[1],
                "chrome-extension://"@,
                0,
            );
            let help = arguments.contains("--help"@) || arguments.contains("-h"@);
            let version = arguments.contains("--version"@) || arguments.contains("-v"@);
            let diagnose = arguments.contains("--diagnose"@);
            let background = arguments.contains("--background"@);
            &&& by_browser ==> mode == StartMode::NativeHost
            &&& !by_browser && help ==> mode == StartMode::Help
            &&& !by_browser && !help && version ==> mode == StartMode::Version
            &&& !by_browser && !help && !version && diagnose ==> mode == StartMode::Diagnose
            &&& !by_browser && !help && !version && !diagnose ==> mode == StartMode::Run {
                background,
            }
        }),
{
    lemma_argument(arguments, "--help"@);
    lemma_argument(arguments, "-h"@);
    lemma_argument(arguments, "--version"@);
    lemma_argument(arguments, "-v"@);
    lemma_argument(arguments, "--diagnose"@);
    lemma_argument(arguments, "--background"@);
}

proof fn lemma_argument(arguments: Seq<Seq<char>>, name: Seq<char>)
    ensures
        commands::has_argument(arguments, name) == arguments.contains(name),
{
    if arguments.contains(name) {
        let i = choose|i: int| 0 <= i < arguments.len() && arguments[i] == name;
        assert(arguments[i] == name);
    }
}

/// A window opens with the latest clips, whatever they are: sixteen in the popup, sixty in the main
/// window.
pub proof fn windows_open_with_the_latest_clips(popup: bool)
    ensures
        ({
            let page = commands::first_page(popup);
            &&& page.search is None
            &&& page.content_type is None
            &&& page.payload_kind is None
            &&& page.domain is None
            &&& page.category_id is None
            &&& page.offset is None
            &&& popup ==> page.limit == Some(16u32) && page.page_limit() == 16
            &&& !popup ==> page.limit == Some(60u32) && page.page_limit() == 60
        }),
{
}

/// A message reaches the application only if it was read, is JSON, and the application answers at
/// its socket; else the browser is told which of these failed.
pub proof fn messages_need_the_application<
    S,
    C: FnOnce(&str) -> Option<S>,
    W: FnOnce(S, &str) -> bool,
>(
    body: Option<Seq<char>>,
    socket: Option<Seq<char>>,
    connect: C,
    send: W,
    result: Result<(), HostError>,
)
    requires
        native_host::handled(body, socket, connect, send, result),
    ensures
        body is None || socket is None || json::json_member(body->0, "event"@) is Err ==> result
            == Err::<(), HostError>(HostError::HostUnavailable),
        result is Ok ==> body is Some && socket is Some && (native_host::is_message(
            body->0,
            "status"@,
        ) || native_host::is_message(body->0, "copy"@)) && exists|path: &str, connection: Option<S>|
            #[trigger] call_ensures(connect, (path,), connection) && path@ == socket->0
                && connection is Some,
        result == Err::<(), HostError>(HostError::AppNotRunning) ==> exists|
            path: &str,
            connection: Option<S>,
        |
            #[trigger] call_ensures(connect, (path,), connection) && path@ == socket->0
                && connection is None,
{
}

/// A message that the application takes is sent to it as one line, and the browser is told whether
/// that succeeded; any other is refused unsent.
pub proof fn messages_are_sent_whole<S, W: FnOnce(S, &str) -> bool>(
    document: Seq<char>,
    connection: S,
    send: W,
    result: Result<(), HostError>,
)
    requires
        native_host::passed_on(document, connection, send, result),
    ensures
        !native_host::is_message(document, "status"@) && !native_host::is_message(
            document,
            "copy"@,
        ) ==> result == Err::<(), HostError>(HostError::InvalidMessage),
        result is Ok ==> exists|line: &str, sent: bool|
            #[trigger] call_ensures(send, (connection, line), sent) && sent
                && native_host::line_of(document) == Some(line@),
        native_host::is_message(document, "status"@) || native_host::is_message(document, "copy"@)
            ==> result is Ok || result == Err::<(), HostError>(HostError::HostUnavailable),
{
}

/// How large a message and how many lines may be, and where things lie for all users.
pub proof fn limits_and_places_are_these()
    ensures
        native_host::MAX_MESSAGE == 16_384,
        crate::browser_metadata::protocol::MAX_LINES == 8,
        crate::settings::SYSTEM_AUTOSTART_PATH@ == "/etc/xdg/autostart/kitsupin.desktop"@,
        diagnostics::SYSTEM_LIB_DIR@ == "/usr/lib/kitsupin"@,
        diagnostics::SYSTEM_NATIVE_HOST_PATH@ == "/usr/lib/kitsupin/kitsupin-native-host"@,
{
}

/// A manifest is written at each path; where it can be written at one of them only, that one is
/// told.
pub proof fn manifests_are_written_where_they_can_be<W: Fn(&str, &str) -> Option<String>>(
    write: W,
    paths: Seq<Seq<char>>,
    document: Seq<char>,
    failures: Seq<Option<String>>,
    at: int,
)
    requires
        manifest::all_attempted(write, paths, document, failures),
        0 <= at < paths.len(),
        forall|target: &str, contents: &str, failure: Option<String>| #[trigger]
            call_ensures(write, (target, contents), failure) && contents@ == document ==> (
            failure is None <==> target@ == paths[at]),
    ensures
        failures.len() == paths.len(),
        forall|i: int|
            0 <= i < paths.len() ==> ((#[trigger] failures[i]) is None <==> paths[i]
                == paths[at]),
        manifest::write_outcome(paths, manifest::failure_views(failures)) == Ok::<
            Seq<char>,
            ManifestProblem,
        >(paths[at]),
{
    assert forall|i: int| 0 <= i < paths.len() implies ((#[trigger] failures[i]) is None
        <==> paths[i] == paths[at]) by {
        assert(manifest::attempted(write, paths[i], document, failures[i]));
    }
    let views = manifest::failure_views(failures);
    assert(views.len() == paths.len());
    assert forall|i: int| 0 <= i < paths.len() implies ((#[trigger] views[i]) is None
        <==> paths[i] == paths[at]) by {
        assert(failures[i] is None <==> paths[i] == paths[at]);
    }
    let same = |path: Seq<char>| path == paths[at];
    crate::sequences::lemma_first_index(paths, same);
    assert(same(paths[at]));
    let first = crate::sequences::first_index(paths, same);
    the_first_place_written_is_told(paths, views, first);
}

/// Where a manifest names this host, the standard streams and a file, the state of that file and
/// of no other decides whether an extension is let in.
pub proof fn the_named_file_is_looked_at<F: FnOnce(&str) -> Option<FileMode>>(
    path: Seq<char>,
    items: Seq<Option<Seq<char>>>,
    probe: F,
    result: Result<String, manifest::ManifestError>,
    file: Option<FileMode>,
)
    requires
        manifest::members_checked(
            Ok(Some(MemberView::Text("io.github.mootxed.kitsupin.native"@))),
            Ok(Some(MemberView::Text("stdio"@))),
            Ok(Some(MemberView::Text(path))),
            Ok(Some(MemberView::Texts(items))),
            probe,
            result,
        ),
        path.len() > 0,
        forall|target: &str, found: Option<FileMode>| #[trigger]
            call_ensures(probe, (target,), found) && target@ == path ==> found == file,
    ensures
        result is Ok <==> file is Some && file->0.is_file && file->0.mode & 0o111 != 0
            && manifest::first_extension(items) is Some,
        result is Ok ==> Some(result->Ok_0@) == manifest::first_extension(items),
{
    let name = Ok::<Option<MemberView>, Seq<char>>(
        Some(MemberView::Text("io.github.mootxed.kitsupin.native"@)),
    );
    let kind = Ok::<Option<MemberView>, Seq<char>>(Some(MemberView::Text("stdio"@)));
    let found = choose|found: Option<FileMode>|
        {
            &&& manifest::outcome_view(result) == #[trigger] manifest::verdict(
                name,
                kind,
                Ok(Some(MemberView::Text(path))),
                Ok(Some(MemberView::Texts(items))),
                found,
            )
            &&& manifest::reaches_file(name, kind, Ok(Some(MemberView::Text(path)))) ==> exists|
                target: &str,
            |
                {
                    &&& #[trigger] call_ensures(probe, (target,), found)
                    &&& target@ == path
                }
        };
    assert(found == file);
    if manifest::first_extension(items) is Some {
        good_manifests_let_an_extension_in(
            "io.github.mootxed.kitsupin.native"@,
            "stdio"@,
            path,
            items,
            file,
            manifest::first_extension(items)->0,
        );
    } else {
        good_manifests_let_an_extension_in(
            "io.github.mootxed.kitsupin.native"@,
            "stdio"@,
            path,
            items,
            file,
            path,
        );
    }
}

} // verus!
