//! The state of the integration with the browser and the session.

pub mod manifest;
pub mod status;

pub use crate::diagnostics::manifest::{
    generate_native_manifest, is_file_executable, save_user_extension_manifest,
    validate_extension_id, validate_manifest_content, FileMode, ManifestError,
};
pub use crate::diagnostics::status::{
    check_manifest, diagnose_exit_code, get_integration_status, IntegrationFacts,
    IntegrationProblem, IntegrationStatus, ManifestCheck,
};

use crate::blob_store;
use crate::blob_store::join_path;
use crate::settings;
use crate::settings::config_home;
use crate::text;
use vstd::prelude::*;

verus! {

pub const NATIVE_HOST_NAME: &'static str = "io.github.mootxed.kitsupin.native";

pub const SYSTEM_LIB_DIR: &'static str = "/usr/lib/kitsupin";

pub const SYSTEM_NATIVE_HOST_PATH: &'static str = "/usr/lib/kitsupin/kitsupin-native-host";

pub const SYSTEM_CHROME_EXTENSION_DIR: &'static str =
    "/usr/lib/kitsupin/resources/chrome-extension";

pub const SYSTEM_UNINSTALL_SCRIPT_PATH: &'static str =
    "/usr/lib/kitsupin/resources/scripts/uninstall-user-data.sh";

/// Where the manifests for all users lie: that of Chrome and that of Chromium.
pub const SYSTEM_MANIFEST_PATHS: [&'static str; 2] = [
    "/etc/opt/chrome/native-messaging-hosts/io.github.mootxed.kitsupin.native.json",
    "/etc/chromium/native-messaging-hosts/io.github.mootxed.kitsupin.native.json",
];

/// Where the manifests of a user lie, below the configuration directory.
pub const USER_MANIFEST_DIRS: [&'static str; 2] = [
    "google-chrome/NativeMessagingHosts",
    "chromium/NativeMessagingHosts",
];

/// The commands that start a supported browser.
pub const BROWSER_COMMANDS: [&'static str; 4] = [
    "google-chrome",
    "google-chrome-stable",
    "chromium",
    "chromium-browser",
];

/// The manifests of a user, given the configuration directory.
pub open spec fn user_manifests(config: Option<Seq<char>>) -> Seq<Seq<char>> {
    match config {
        Some(config) => seq![
            manifest_in(config, USER_MANIFEST_DIRS@[0]@),
            manifest_in(config, USER_MANIFEST_DIRS@[1]@),
        ],
        None => Seq::empty(),
    }
}

pub open spec fn manifest_in(config: Seq<char>, directory: Seq<char>) -> Seq<char> {
    blob_store::joined(
        blob_store::joined(config, directory),
        NATIVE_HOST_NAME@ + ".json"@,
    )
}

fn manifest_below(config: &str, directory: &str) -> (path: String)
    ensures
        path@ == manifest_in(config@, directory@),
{
    let mut file = NATIVE_HOST_NAME.to_owned();
    file.push_str(".json");
    let directory = join_path(config, directory);
    join_path(directory.as_str(), file.as_str())
}

/// Where the manifests of a user lie: that of Chrome and that of Chromium; nowhere without a
/// configuration or home directory.
pub fn get_user_manifest_paths(config: Option<&str>, home: Option<&str>) -> (paths: Vec<String>)
    ensures
        text::texts_of(paths@) == user_manifests(
            settings::config_directory(text::slice_of(config), text::slice_of(home)),
        ),
{
    let mut paths: Vec<String> = Vec::new();
    match config_home(config, home) {
        Some(directory) => {
            paths.push(manifest_below(directory.as_str(), USER_MANIFEST_DIRS[0]));
            paths.push(manifest_below(directory.as_str(), USER_MANIFEST_DIRS[1]));
            assert(text::texts_of(paths@) =~= user_manifests(Some(directory@)));
        },
        None => {
            assert(text::texts_of(paths@) =~= Seq::empty());
        },
    }
    paths
}

/// Where the user's manifest for Chrome lies.
pub fn get_user_manifest_path(config: Option<&str>, home: Option<&str>) -> (path: Option<String>)
    ensures
        text::text_of(path) == match settings::config_directory(
            text::slice_of(config),
            text::slice_of(home),
        ) {
            Some(directory) => Some(manifest_in(directory, USER_MANIFEST_DIRS@[0]@)),
            None => None,
        },
{
    match config_home(config, home) {
        Some(directory) => Some(manifest_below(directory.as_str(), USER_MANIFEST_DIRS[0])),
        None => None,
    }
}

/// `probe` has said so of a file at this path.
pub open spec fn told<F: Fn(&str) -> bool>(probe: F, path: Seq<char>, answer: bool) -> bool {
    exists|target: &str| #[trigger] call_ensures(probe, (target,), answer) && target@ == path
}

/// The first path, in order, of which `probe` says that something is there.
fn first_existing<F: Fn(&str) -> bool>(paths: &Vec<String>, probe: &F) -> (at: usize)
    requires
        forall|target: &str| #[trigger] call_requires(*probe, (target,)),
    ensures
        at <= paths@.len(),
        forall|k: int| 0 <= k < at ==> #[trigger] told(*probe, text::texts_of(paths@)[k], false),
        at < paths@.len() ==> told(*probe, text::texts_of(paths@)[at as int], true),
{
    let mut i: usize = 0;
    while i < paths.len()
        invariant
            i <= paths@.len(),
            forall|target: &str| #[trigger] call_requires(*probe, (target,)),
            forall|k: int|
                0 <= k < i ==> #[trigger] told(*probe, text::texts_of(paths@)[k], false),
        decreases paths@.len() - i,
    {
        let target = paths[i].as_str();
        let found = probe(target);
        proof {
            assert(text::texts_of(paths@)[i as int] == target@);
            assert(told(*probe, text::texts_of(paths@)[i as int], found));
        }
        if found {
            return i;
        }
        i += 1;
    }
    i
}

/// Where a browser may be: the usual places, then every directory of the search path.
pub open spec fn browser_candidates(search_path: Seq<Seq<char>>) -> Seq<Seq<char>>
    decreases search_path.len(),
{
    if search_path.len() == 0 {
        in_directory("/usr/bin"@)
    } else {
        browser_candidates(search_path.drop_last()) + in_directory(search_path.last())
    }
}

pub open spec fn in_directory(directory: Seq<char>) -> Seq<Seq<char>> {
    Seq::new(4, |i: int| blob_store::joined(directory, BROWSER_COMMANDS@[i]@))
}

fn push_browsers(paths: &mut Vec<String>, directory: &str)
    ensures
        text::texts_of(final(paths)@) == text::texts_of(old(paths)@) + in_directory(directory@),
{
    paths.push(join_path(directory, BROWSER_COMMANDS[0]));
    paths.push(join_path(directory, BROWSER_COMMANDS[1]));
    paths.push(join_path(directory, BROWSER_COMMANDS[2]));
    paths.push(join_path(directory, BROWSER_COMMANDS[3]));
    assert(text::texts_of(paths@) =~= text::texts_of(old(paths)@) + in_directory(directory@));
}

/// Whether a supported browser is installed. `is_there` tells whether something is at a path.
pub fn check_chrome_installed<F: Fn(&str) -> bool>(search_path: &Vec<String>, is_there: F) -> (installed:
    bool)
    requires
        forall|target: &str| #[trigger] call_requires(is_there, (target,)),
    ensures
        ({
            let candidates = browser_candidates(text::texts_of(search_path@));
            if installed {
                exists|k: int|
                    0 <= k < candidates.len() && #[trigger] told(is_there, candidates[k], true)
            } else {
                forall|k: int|
                    0 <= k < candidates.len() ==> #[trigger] told(is_there, candidates[k], false)
            }
        }),
{
    let mut paths: Vec<String> = Vec::new();
    push_browsers(&mut paths, "/usr/bin");
    let ghost all = text::texts_of(search_path@);
    proof {
        assert(text::texts_of(paths@) =~= browser_candidates(all.take(0)));
    }
    let mut i: usize = 0;
    while i < search_path.len()
        invariant
            i <= search_path@.len(),
            all == text::texts_of(search_path@),
            text::texts_of(paths@) == browser_candidates(all.take(i as int)),
        decreases search_path@.len() - i,
    {
        push_browsers(&mut paths, search_path[i].as_str());
        proof {
            assert(all.take(i + 1).drop_last() =~= all.take(i as int));
            assert(all.take(i + 1).last() == search_path@[i as int]@);
        }
        i += 1;
    }
    proof {
        assert(all.take(i as int) =~= all);
    }
    first_existing(&paths, &is_there) < paths.len()
}

/// Where the native host may be: the place of the installed package, then the place that the
/// environment names, then the directory of the running program.
pub open spec fn host_candidates(named: Option<Seq<char>>, exe_dir: Option<Seq<char>>) -> Seq<
    Seq<char>,
> {
    let installed = seq![SYSTEM_NATIVE_HOST_PATH@];
    let with_named = match named {
        Some(path) => installed.push(path),
        None => installed,
    };
    match exe_dir {
        Some(directory) => with_named.push(
            blob_store::joined(directory, "kitsupin-native-host"@),
        ),
        None => with_named,
    }
}

/// The native host: the first place where `is_there` says that something is.
pub fn resolve_native_host_path<F: Fn(&str) -> bool>(
    named: Option<&str>,
    exe_dir: Option<&str>,
    is_there: F,
) -> (path: Option<String>)
    requires
        forall|target: &str| #[trigger] call_requires(is_there, (target,)),
    ensures
        ({
            let candidates = host_candidates(text::slice_of(named), text::slice_of(exe_dir));
            match path {
                Some(path) => exists|k: int|
                    {
                        &&& 0 <= k < candidates.len()
                        &&& #[trigger] told(is_there, candidates[k], true)
                        &&& path@ == candidates[k]
                        &&& forall|j: int|
                            0 <= j < k ==> #[trigger] told(is_there, candidates[j], false)
                    },
                None => forall|k: int|
                    0 <= k < candidates.len() ==> #[trigger] told(is_there, candidates[k], false),
            }
        }),
{
    let mut paths: Vec<String> = Vec::new();
    paths.push(SYSTEM_NATIVE_HOST_PATH.to_owned());
    match named {
        Some(path) => paths.push(path.to_owned()),
        None => {},
    }
    match exe_dir {
        Some(directory) => paths.push(join_path(directory, "kitsupin-native-host")),
        None => {},
    }
    proof {
        assert(text::texts_of(paths@) =~= host_candidates(
            text::slice_of(named),
            text::slice_of(exe_dir),
        ));
    }
    let at = first_existing(&paths, &is_there);
    if at < paths.len() {
        assert(text::texts_of(paths@)[at as int] == paths@[at as int]@);
        Some(paths[at].clone())
    } else {
        None
    }
}

} // verus!
