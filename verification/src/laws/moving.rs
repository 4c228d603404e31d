//! How the files of the application's former name are moved.

use crate::blob_store;
use crate::migration;
use crate::migration::{DirectoryFacts, FormerFile, LegacyFacts, LegacyMigrationResult, MoveView, StepView};
use vstd::prelude::*;

verus! {

/// The data lies where the user says, else below the home directory.
pub proof fn data_lies_at_home(data: Seq<char>, home: Seq<char>, other: Option<Seq<char>>)
    requires
        home.len() > 0,
        home.last() != '/',
    ensures
        migration::data_directory(Some(data), other) == Some(data),
        migration::data_directory(None, Some(home)) == Some(home + "/.local/share"@),
        migration::data_directory(None, None) is None,
{
    reveal_strlit(".local/share");
    reveal_strlit("/.local/share");
    assert(home.push('/') + ".local/share"@ =~= home + "/.local/share"@);
}

/// What is done with the data depends on what is there: nothing while someone else moves it or no
/// directory is known; the former directory is renamed where there is no present one; where there
/// are both, a former database is copied if there is none, replaces an empty one, and is taken into
/// one that holds something.
pub proof fn what_is_there_decides(data: Seq<char>, facts: LegacyFacts)
    ensures
        ({
            let result = migration::data_plan(Some(data), facts).0;
            let both = facts.former.exists && facts.present.exists && facts.former.former_database;
            let has_database = facts.present.database || facts.present.former_database;
            let has_empty = facts.present.database && facts.present.database_is_empty;
            &&& facts.locked ==> result == LegacyMigrationResult::ConflictPreserved
                && migration::data_plan(Some(data), facts).1.len() == 0
            &&& !facts.locked && facts.former.exists && !facts.present.exists ==> result
                == LegacyMigrationResult::Renamed
            &&& !facts.locked && !facts.former.exists ==> result
                == LegacyMigrationResult::NothingToDo
            &&& !facts.locked && facts.present.exists && !facts.former.former_database ==> result
                == LegacyMigrationResult::NothingToDo
            &&& !facts.locked && both && !has_database ==> result == LegacyMigrationResult::Copied
            &&& !facts.locked && both && has_empty ==> result
                == LegacyMigrationResult::ReplacedEmpty
            &&& !facts.locked && both && has_database && !has_empty ==> result
                == LegacyMigrationResult::Merged
        }),
        facts.locked ==> migration::data_plan(None, facts).0
            == LegacyMigrationResult::ConflictPreserved,
        !facts.locked ==> migration::data_plan(None, facts).0 == LegacyMigrationResult::NothingToDo,
        migration::data_plan(None, facts).1.len() == 0,
{
}

/// A database that is copied keeps its former file as a backup; an empty one makes room first, and
/// goes once the copy is there; else the former history is taken in. Each comes after the names of
/// what is there are put in order.
pub proof fn databases_are_transferred(data: Seq<char>, facts: LegacyFacts)
    ensures
        ({
            let (result, steps) = migration::data_plan(Some(data), facts);
            let former = blob_store::joined(data, "pastily"@);
            let present = blob_store::joined(data, "kitsupin"@);
            let from = blob_store::joined(former, "pastily.sqlite3"@);
            let to = blob_store::joined(present, "kitsupin.sqlite3"@);
            let aside = blob_store::joined(present, "kitsupin.sqlite3.empty.bak"@);
            let backup = blob_store::joined(former, "pastily.sqlite3.bak"@);
            let n = steps.len() as int;
            &&& result == LegacyMigrationResult::Renamed ==> n > 0 && steps[0]
                == StepView::Rename { from: former, to: present }
            &&& result == LegacyMigrationResult::Copied ==> n >= 2 && steps[n - 2]
                == StepView::CopyDatabase { from, to } && steps[n - 1] == StepView::Rename {
                from,
                to: backup,
            }
            &&& result == LegacyMigrationResult::ReplacedEmpty ==> n >= 3 && steps[n - 3]
                == StepView::Rename { from: to, to: aside } && steps[n - 2]
                == StepView::CopyDatabase { from, to } && steps[n - 1] == StepView::Remove(aside)
            &&& result == LegacyMigrationResult::Merged ==> n >= 1 && steps[n - 1]
                == StepView::MergeDatabase { from, into: to }
        }),
{
}

/// A file of the database gets its new name exactly if it stands under the former one and nothing
/// stands under the new one; a socket that was left is removed.
pub proof fn names_are_put_in_order(directory: Seq<char>, facts: DirectoryFacts, step: StepView)
    ensures
        migration::tidied(directory, facts).contains(step) <==> {
            ||| facts.former_database && !facts.database && step == StepView::Rename {
                from: blob_store::joined(directory, "pastily.sqlite3"@),
                to: blob_store::joined(directory, "kitsupin.sqlite3"@),
            }
            ||| facts.former_wal && !facts.wal && step == StepView::Rename {
                from: blob_store::joined(directory, "pastily.sqlite3-wal"@),
                to: blob_store::joined(directory, "kitsupin.sqlite3-wal"@),
            }
            ||| facts.former_shm && !facts.shm && step == StepView::Rename {
                from: blob_store::joined(directory, "pastily.sqlite3-shm"@),
                to: blob_store::joined(directory, "kitsupin.sqlite3-shm"@),
            }
            ||| facts.socket && step == StepView::Remove(
                blob_store::joined(directory, "native.sock"@),
            )
        },
{
    let a = migration::only_if(
        facts.former_database && !facts.database,
        migration::rename_step(directory, "pastily.sqlite3"@, "kitsupin.sqlite3"@),
    );
    let b = migration::only_if(
        facts.former_wal && !facts.wal,
        migration::rename_step(directory, "pastily.sqlite3-wal"@, "kitsupin.sqlite3-wal"@),
    );
    let c = migration::only_if(
        facts.former_shm && !facts.shm,
        migration::rename_step(directory, "pastily.sqlite3-shm"@, "kitsupin.sqlite3-shm"@),
    );
    let d = migration::only_if(
        facts.socket,
        StepView::Remove(blob_store::joined(directory, "native.sock"@)),
    );
    lemma_joined_contains(a, b, step);
    lemma_joined_contains(a + b, c, step);
    lemma_joined_contains(a + b + c, d, step);
    lemma_only_if(
        facts.former_database && !facts.database,
        migration::rename_step(directory, "pastily.sqlite3"@, "kitsupin.sqlite3"@),
        step,
    );
    lemma_only_if(
        facts.former_wal && !facts.wal,
        migration::rename_step(directory, "pastily.sqlite3-wal"@, "kitsupin.sqlite3-wal"@),
        step,
    );
    lemma_only_if(
        facts.former_shm && !facts.shm,
        migration::rename_step(directory, "pastily.sqlite3-shm"@, "kitsupin.sqlite3-shm"@),
        step,
    );
    lemma_only_if(
        facts.socket,
        StepView::Remove(blob_store::joined(directory, "native.sock"@)),
        step,
    );
}

proof fn lemma_only_if(holds: bool, only: StepView, step: StepView)
    ensures
        migration::only_if(holds, only).contains(step) <==> holds && step == only,
{
    if holds {
        assert(migration::only_if(holds, only)[0] == only);
    }
}

proof fn lemma_joined_contains<A>(a: Seq<A>, b: Seq<A>, x: A)
    ensures
        (a + b).contains(x) <==> a.contains(x) || b.contains(x),
{
    let all = a + b;
    if a.contains(x) {
        let i = choose|i: int| 0 <= i < a.len() && a[i] == x;
        assert(all[i] == x);
    }
    if b.contains(x) {
        let i = choose|i: int| 0 <= i < b.len() && b[i] == x;
        assert(all[a.len() + i] == x);
    }
    if all.contains(x) {
        let i = choose|i: int| 0 <= i < all.len() && all[i] == x;
        if i < a.len() {
            assert(a[i] == x);
        } else {
            assert(b[i - a.len()] == x);
        }
    }
}

/// The entry for starting with the session is written anew under its new name, or renamed where it
/// cannot be read, unless there is one; the former one goes.
pub proof fn entries_get_their_new_name(config: Seq<char>, facts: LegacyFacts)
    ensures
        ({
            let steps = migration::autostart_plan(Some(config), facts);
            let directory = blob_store::joined(config, "autostart"@);
            let old_path = blob_store::joined(directory, "pastily.desktop"@);
            let new_path = blob_store::joined(directory, "kitsupin.desktop"@);
            &&& facts.former_autostart is Missing ==> steps.len() == 0
            &&& facts.former_autostart !is Missing && facts.autostart ==> steps == seq![
                StepView::Remove(old_path),
            ]
            &&& facts.former_autostart is Unreadable && !facts.autostart ==> steps == seq![
                StepView::Rename { from: old_path, to: new_path },
                StepView::Remove(old_path),
            ]
            &&& facts.former_autostart matches FormerFile::Readable(contents) ==> !facts.autostart
                ==> steps == seq![
                StepView::Write {
                    path: new_path,
                    contents: migration::renamed_text(contents@),
                },
                StepView::Remove(old_path),
            ]
            &&& migration::autostart_plan(None, facts).len() == 0
        }),
{
    let steps = migration::autostart_plan(Some(config), facts);
    let directory = blob_store::joined(config, "autostart"@);
    let old_path = blob_store::joined(directory, "pastily.desktop"@);
    let new_path = blob_store::joined(directory, "kitsupin.desktop"@);
    if facts.former_autostart !is Missing && facts.autostart {
        assert(steps =~= seq![StepView::Remove(old_path)]);
    }
    if facts.former_autostart is Unreadable && !facts.autostart {
        assert(steps =~= seq![
            StepView::Rename { from: old_path, to: new_path },
            StepView::Remove(old_path),
        ]);
    }
    if let FormerFile::Readable(contents) = facts.former_autostart {
        if !facts.autostart {
            assert(steps =~= seq![
                StepView::Write { path: new_path, contents: migration::renamed_text(contents@) },
                StepView::Remove(old_path),
            ]);
        }
    }
}

/// A manifest is written anew under its new name, unless there is one or it cannot be read; the
/// former one goes.
pub proof fn manifests_get_their_new_name(
    config: Seq<char>,
    browser: Seq<char>,
    former: FormerFile,
    known: bool,
)
    ensures
        ({
            let steps = migration::manifest_plan(Some(config), browser, former, known);
            let directory = blob_store::joined(config, browser);
            let old_path = blob_store::joined(directory, "app.pastily.native.json"@);
            let new_path = blob_store::joined(
                directory,
                "io.github.mootxed.kitsupin.native.json"@,
            );
            &&& former is Missing ==> steps.len() == 0
            &&& former is Unreadable || former is Readable && known ==> steps == seq![
                StepView::Remove(old_path),
            ]
            &&& former matches FormerFile::Readable(contents) ==> !known ==> steps == seq![
                StepView::Write {
                    path: new_path,
                    contents: migration::renamed_manifest(contents@),
                },
                StepView::Remove(old_path),
            ]
            &&& migration::manifest_plan(None, browser, former, known).len() == 0
        }),
{
    let steps = migration::manifest_plan(Some(config), browser, former, known);
    let directory = blob_store::joined(config, browser);
    let old_path = blob_store::joined(directory, "app.pastily.native.json"@);
    let new_path = blob_store::joined(directory, "io.github.mootxed.kitsupin.native.json"@);
    if former is Unreadable || former is Readable && known {
        assert(steps =~= seq![StepView::Remove(old_path)]);
    }
    if let FormerFile::Readable(contents) = former {
        if !known {
            assert(steps =~= seq![
                StepView::Write {
                    path: new_path,
                    contents: migration::renamed_manifest(contents@),
                },
                StepView::Remove(old_path),
            ]);
        }
    }
}

/// The entries of the session and of both browsers are dealt with, unless someone else moves the
/// data.
pub proof fn all_entries_are_dealt_with(config: Option<Seq<char>>, facts: LegacyFacts, step: StepView)
    ensures
        facts.locked ==> migration::entries_plan(config, facts).len() == 0,
        !facts.locked ==> (migration::entries_plan(config, facts).contains(step) <==> {
            ||| migration::autostart_plan(config, facts).contains(step)
            ||| migration::manifest_plan(
                config,
                "google-chrome/NativeMessagingHosts"@,
                facts.former_chrome_manifest,
                facts.chrome_manifest,
            ).contains(step)
            ||| migration::manifest_plan(
                config,
                "chromium/NativeMessagingHosts"@,
                facts.former_chromium_manifest,
                facts.chromium_manifest,
            ).contains(step)
        }),
{
    let a = migration::autostart_plan(config, facts);
    let b = migration::manifest_plan(
        config,
        "google-chrome/NativeMessagingHosts"@,
        facts.former_chrome_manifest,
        facts.chrome_manifest,
    );
    let c = migration::manifest_plan(
        config,
        "chromium/NativeMessagingHosts"@,
        facts.former_chromium_manifest,
        facts.chromium_manifest,
    );
    lemma_joined_contains(a, b, step);
    lemma_joined_contains(a + b, c, step);
}

/// In a text without the former name nothing changes; each occurrence of it becomes the new name,
/// from left to right.
pub proof fn former_names_become_new_names(contents: Seq<char>, head: Seq<char>, rest: Seq<char>)
    ensures
        !crate::text::contains_text(contents, "Pastily"@) && !crate::text::contains_text(
            contents,
            "pastily"@,
        ) ==> migration::renamed_text(contents) == contents,
        (forall|at: int|
            0 <= at < head.len() ==> !crate::text::stands_at(
                head + "pastily"@ + rest,
                "pastily"@,
                at,
            )) && !crate::text::contains_text(head + "pastily"@ + rest, "Pastily"@)
            ==> migration::renamed_text(head + "pastily"@ + rest) == head + "kitsupin"@
            + crate::text::replaced(rest, "pastily"@, "kitsupin"@),
        !crate::text::contains_text(contents, "app.pastily.native"@) ==> migration::renamed_manifest(
            contents,
        ) == migration::renamed_text(contents),
{
    reveal_strlit("Pastily");
    reveal_strlit("pastily");
    reveal_strlit("app.pastily.native");
    if !crate::text::contains_text(contents, "Pastily"@) && !crate::text::contains_text(
        contents,
        "pastily"@,
    ) {
        crate::laws::words::nothing_is_replaced_by_chance(contents, "Pastily"@, "KitsuPin"@);
        crate::laws::words::nothing_is_replaced_by_chance(contents, "pastily"@, "kitsupin"@);
    }
    let whole = head + "pastily"@ + rest;
    if (forall|at: int|
        0 <= at < head.len() ==> !crate::text::stands_at(whole, "pastily"@, at))
        && !crate::text::contains_text(whole, "Pastily"@) {
        crate::laws::words::nothing_is_replaced_by_chance(whole, "Pastily"@, "KitsuPin"@);
        crate::laws::words::replacing_goes_from_left_to_right(
            head,
            "pastily"@,
            rest,
            "kitsupin"@,
        );
    }
    if !crate::text::contains_text(contents, "app.pastily.native"@) {
        crate::laws::words::nothing_is_replaced_by_chance(
            contents,
            "app.pastily.native"@,
            "io.github.mootxed.kitsupin.native"@,
        );
    }
}

/// Moving begins with the data, in order, and goes on with the entries; a step that succeeds is
/// followed by the next one.
pub proof fn steps_follow_one_another(moving: MoveView)
    ensures
        moving.pending() == if moving.ahead.len() > 0 {
            Some(moving.ahead[0])
        } else if moving.entries.len() > 0 {
            Some(moving.entries[0])
        } else {
            None
        },
        moving.ahead.len() > 0 ==> moving.next(false).ahead == moving.ahead.drop_first()
            && moving.next(false).entries == moving.entries,
        moving.ahead.len() == 0 && moving.entries.len() > 0 ==> moving.next(false).entries
            == moving.entries.drop_first() && moving.next(false).ahead.len() == 0,
        moving.next(false).result == moving.result,
        moving.ahead.len() == 0 ==> moving.next(true).result == moving.result,
{
}

/// Moving begins with all that is to be done.
pub proof fn moving_begins_with_the_plan(
    data: Option<Seq<char>>,
    config: Option<Seq<char>>,
    facts: LegacyFacts,
)
    ensures
        ({
            let begun = MoveView::begun(data, config, facts);
            &&& begun.ahead == migration::data_plan(data, facts).1
            &&& begun.entries == migration::entries_plan(config, facts)
            &&& begun.result == migration::data_plan(data, facts).0
            &&& begun.moved_aside is None
            &&& begun.untouched
        }),
{
}

/// A step that fails without harm is passed over; where the directory itself could not be renamed,
/// nothing more is done with the data.
pub proof fn harmless_failures_are_passed_over(moving: MoveView)
    requires
        moving.ahead.len() > 0,
        !(moving.ahead[0] is CopyDatabase),
        !(moving.ahead[0] is MergeDatabase),
        !moving.makes_room(),
    ensures
        moving.untouched && moving.result == LegacyMigrationResult::Renamed ==> moving.next(
            true,
        ).ahead.len() == 0 && moving.next(true).result == LegacyMigrationResult::NothingToDo
            && moving.next(true).entries == moving.entries,
        !(moving.untouched && moving.result == LegacyMigrationResult::Renamed) ==> moving.next(
            true,
        ).ahead == moving.ahead.drop_first() && moving.next(true).result == moving.result
            && moving.next(true).entries == moving.entries,
{
}

} // verus!
