//! Moving what the application kept under its former name.

use crate::blob_store;
use crate::blob_store::join_path;
use crate::files;
use crate::files::FilesView;
use crate::text;
use crate::text::{replace_text, same_text};
use vstd::prelude::*;

verus! {

/// How the data of the former application were dealt with.
#[derive(Debug, Clone, Copy, PartialEq, Eq, Structural)]
pub enum LegacyMigrationResult {
    /// There is nothing to move.
    NothingToDo,
    /// The directory was renamed.
    Renamed,
    /// The database was copied into a directory that had none, and is kept as a backup.
    Copied,
    /// The database was copied in place of an empty one.
    ReplacedEmpty,
    /// The former history is taken into the present one.
    Merged,
    /// Someone else is moving the data; nothing is touched.
    ConflictPreserved,
}

/// One thing to be done with files.
#[derive(Debug, PartialEq, Eq)]
pub enum FileStep {
    Rename { from: String, to: String },
    Write { path: String, contents: String },
    Remove(String),
    /// Copy a database with all that is not yet written into it, and check the copy.
    CopyDatabase { from: String, to: String },
    /// Take the history of one database into another, all of it or none.
    MergeDatabase { from: String, into: String },
}

#[verifier::ext_equal]
pub enum StepView {
    Rename { from: Seq<char>, to: Seq<char> },
    Write { path: Seq<char>, contents: Seq<char> },
    Remove(Seq<char>),
    CopyDatabase { from: Seq<char>, to: Seq<char> },
    MergeDatabase { from: Seq<char>, into: Seq<char> },
}

impl View for FileStep {
    type V = StepView;

    open spec fn view(&self) -> StepView {
        match self {
            FileStep::Rename { from, to } => StepView::Rename { from: from@, to: to@ },
            FileStep::Write { path, contents } => StepView::Write {
                path: path@,
                contents: contents@,
            },
            FileStep::Remove(path) => StepView::Remove(path@),
            FileStep::CopyDatabase { from, to } => StepView::CopyDatabase {
                from: from@,
                to: to@,
            },
            FileStep::MergeDatabase { from, into } => StepView::MergeDatabase {
                from: from@,
                into: into@,
            },
        }
    }
}

pub open spec fn step_views(steps: Seq<FileStep>) -> Seq<StepView> {
    steps.map_values(|step: FileStep| step@)
}

/// What stands under a former name.
#[derive(Debug)]
pub enum FormerFile {
    Missing,
    Unreadable,
    Readable(String),
}

/// The files of a database and a socket, as far as they are there.
#[derive(Debug, Clone, Copy, PartialEq, Eq, Structural)]
pub struct DirectoryFacts {
    pub exists: bool,
    pub former_database: bool,
    pub former_wal: bool,
    pub former_shm: bool,
    pub database: bool,
    pub wal: bool,
    pub shm: bool,
    pub socket: bool,
    /// Whether the database that is there holds nothing of the user's.
    pub database_is_empty: bool,
}

/// What was found on disk.
#[derive(Debug)]
pub struct LegacyFacts {
    /// Whether someone else holds the lock.
    pub locked: bool,
    pub former: DirectoryFacts,
    pub present: DirectoryFacts,
    pub former_autostart: FormerFile,
    pub autostart: bool,
    pub former_chrome_manifest: FormerFile,
    pub chrome_manifest: bool,
    pub former_chromium_manifest: FormerFile,
    pub chromium_manifest: bool,
}

/// The data directory of all applications: the given one, else that of the home directory.
pub open spec fn data_directory(data: Option<Seq<char>>, home: Option<Seq<char>>) -> Option<
    Seq<char>,
> {
    match (data, home) {
        (Some(data), _) => Some(data),
        (None, Some(home)) => Some(blob_store::joined(home, ".local/share"@)),
        (None, None) => None,
    }
}

pub fn data_home(data: Option<&str>, home: Option<&str>) -> (directory: Option<String>)
    ensures
        text::text_of(directory) == data_directory(text::slice_of(data), text::slice_of(home)),
{
    match (data, home) {
        (Some(data), _) => Some(data.to_owned()),
        (None, Some(home)) => Some(join_path(home, ".local/share")),
        (None, None) => None,
    }
}

/// The lock that keeps two processes from moving data at once.
pub fn migration_lock_path(data: &str) -> (path: String)
    ensures
        path@ == blob_store::joined(data@, ".kitsupin-migration.lock"@),
{
    join_path(data, ".kitsupin-migration.lock")
}

/// Names of the former application become names of this one.
pub open spec fn renamed_text(contents: Seq<char>) -> Seq<char> {
    text::replaced(
        text::replaced(contents, "Pastily"@, "KitsuPin"@),
        "pastily"@,
        "kitsupin"@,
    )
}

fn rename_in(contents: &str) -> (renamed: String)
    ensures
        renamed@ == renamed_text(contents@),
{
    proof {
        reveal_strlit("Pastily");
        reveal_strlit("pastily");
    }
    let named = replace_text(contents, "Pastily", "KitsuPin");
    replace_text(named.as_str(), "pastily", "kitsupin")
}

/// In a manifest the name of the native host changes first.
pub open spec fn renamed_manifest(contents: Seq<char>) -> Seq<char> {
    renamed_text(
        text::replaced(
            contents,
            "app.pastily.native"@,
            "io.github.mootxed.kitsupin.native"@,
        ),
    )
}

pub open spec fn rename_step(directory: Seq<char>, from: Seq<char>, to: Seq<char>) -> StepView {
    StepView::Rename {
        from: blob_store::joined(directory, from),
        to: blob_store::joined(directory, to),
    }
}

pub open spec fn only_if(holds: bool, step: StepView) -> Seq<StepView> {
    if holds {
        seq![step]
    } else {
        Seq::empty()
    }
}

/// In the present directory, with the files of `facts`: files of the database get their new
/// names unless there are such files already, and a socket that was left is removed.
pub open spec fn tidied(directory: Seq<char>, facts: DirectoryFacts) -> Seq<StepView> {
    only_if(
        facts.former_database && !facts.database,
        rename_step(directory, "pastily.sqlite3"@, "kitsupin.sqlite3"@),
    ) + only_if(
        facts.former_wal && !facts.wal,
        rename_step(directory, "pastily.sqlite3-wal"@, "kitsupin.sqlite3-wal"@),
    ) + only_if(
        facts.former_shm && !facts.shm,
        rename_step(directory, "pastily.sqlite3-shm"@, "kitsupin.sqlite3-shm"@),
    ) + only_if(
        facts.socket,
        StepView::Remove(blob_store::joined(directory, "native.sock"@)),
    )
}

/// What becomes of the data directory.
pub open spec fn data_plan(data: Option<Seq<char>>, facts: LegacyFacts) -> (
    LegacyMigrationResult,
    Seq<StepView>,
) {
    if facts.locked {
        (LegacyMigrationResult::ConflictPreserved, Seq::empty())
    } else if data is None {
        (LegacyMigrationResult::NothingToDo, Seq::empty())
    } else {
        let former = blob_store::joined(data->0, "pastily"@);
        let present = blob_store::joined(data->0, "kitsupin"@);
        let from = blob_store::joined(former, "pastily.sqlite3"@);
        let to = blob_store::joined(present, "kitsupin.sqlite3"@);
        let aside = blob_store::joined(present, "kitsupin.sqlite3.empty.bak"@);
        let backup = blob_store::joined(former, "pastily.sqlite3.bak"@);
        let tidy = tidied(present, facts.present);
        if facts.former.exists && !facts.present.exists {
            (
                LegacyMigrationResult::Renamed,
                seq![StepView::Rename { from: former, to: present }] + tidied(
                    present,
                    facts.former,
                ),
            )
        } else if !facts.present.exists {
            (LegacyMigrationResult::NothingToDo, Seq::empty())
        } else if !facts.former.exists || !facts.former.former_database {
            (LegacyMigrationResult::NothingToDo, tidy)
        } else if !facts.present.database && !facts.present.former_database {
            (
                LegacyMigrationResult::Copied,
                tidy + seq![
                    StepView::CopyDatabase { from, to },
                    StepView::Rename { from, to: backup },
                ],
            )
        } else if facts.present.database && facts.present.database_is_empty {
            (
                LegacyMigrationResult::ReplacedEmpty,
                tidy + seq![
                    StepView::Rename { from: to, to: aside },
                    StepView::CopyDatabase { from, to },
                    StepView::Remove(aside),
                ],
            )
        } else {
            (
                LegacyMigrationResult::Merged,
                tidy + seq![StepView::MergeDatabase { from, into: to }],
            )
        }
    }
}

/// What becomes of the entry for starting with the session.
pub open spec fn autostart_plan(config: Option<Seq<char>>, facts: LegacyFacts) -> Seq<StepView> {
    if config is None || facts.former_autostart is Missing {
        Seq::empty()
    } else {
        let directory = blob_store::joined(config->0, "autostart"@);
        let old = blob_store::joined(directory, "pastily.desktop"@);
        let new = blob_store::joined(directory, "kitsupin.desktop"@);
        let first = if facts.autostart {
            Seq::empty()
        } else {
            match facts.former_autostart {
                FormerFile::Readable(contents) => seq![
                    StepView::Write { path: new, contents: renamed_text(contents@) },
                ],
                _ => seq![StepView::Rename { from: old, to: new }],
            }
        };
        first + seq![StepView::Remove(old)]
    }
}

/// What becomes of a manifest below a directory of a browser.
pub open spec fn manifest_plan(
    config: Option<Seq<char>>,
    browser: Seq<char>,
    former: FormerFile,
    known: bool,
) -> Seq<StepView> {
    if config is None || former is Missing {
        Seq::empty()
    } else {
        let directory = blob_store::joined(config->0, browser);
        let old = blob_store::joined(directory, "app.pastily.native.json"@);
        let new = blob_store::joined(directory, "io.github.mootxed.kitsupin.native.json"@);
        let first = match former {
            FormerFile::Readable(contents) if !known => seq![
                StepView::Write { path: new, contents: renamed_manifest(contents@) },
            ],
            _ => Seq::empty(),
        };
        first + seq![StepView::Remove(old)]
    }
}

/// What becomes of the entry for starting with the session and of the manifests.
pub open spec fn entries_plan(config: Option<Seq<char>>, facts: LegacyFacts) -> Seq<StepView> {
    if facts.locked {
        Seq::empty()
    } else {
        autostart_plan(config, facts) + manifest_plan(
            config,
            "google-chrome/NativeMessagingHosts"@,
            facts.former_chrome_manifest,
            facts.chrome_manifest,
        ) + manifest_plan(
            config,
            "chromium/NativeMessagingHosts"@,
            facts.former_chromium_manifest,
            facts.chromium_manifest,
        )
    }
}

fn push_if(steps: &mut Vec<FileStep>, holds: bool, step: FileStep)
    ensures
        step_views(final(steps)@) == step_views(old(steps)@) + only_if(holds, step@),
{
    if holds {
        steps.push(step);
    }
    assert(step_views(steps@) =~= step_views(old(steps)@) + only_if(holds, step@));
}

fn rename_below(directory: &str, from: &str, to: &str) -> (step: FileStep)
    ensures
        step@ == rename_step(directory@, from@, to@),
{
    FileStep::Rename { from: join_path(directory, from), to: join_path(directory, to) }
}

fn push_tidying(steps: &mut Vec<FileStep>, directory: &str, facts: DirectoryFacts)
    ensures
        step_views(final(steps)@) == step_views(old(steps)@) + tidied(directory@, facts),
{
    push_if(
        steps,
        facts.former_database && !facts.database,
        rename_below(directory, "pastily.sqlite3", "kitsupin.sqlite3"),
    );
    push_if(
        steps,
        facts.former_wal && !facts.wal,
        rename_below(directory, "pastily.sqlite3-wal", "kitsupin.sqlite3-wal"),
    );
    push_if(
        steps,
        facts.former_shm && !facts.shm,
        rename_below(directory, "pastily.sqlite3-shm", "kitsupin.sqlite3-shm"),
    );
    push_if(steps, facts.socket, FileStep::Remove(join_path(directory, "native.sock")));
    assert(step_views(steps@) =~= step_views(old(steps)@) + tidied(directory@, facts));
}

fn migrate_data_dir(steps: &mut Vec<FileStep>, data: &str, facts: &LegacyFacts) -> (result:
    LegacyMigrationResult)
    requires
        !facts.locked,
    ensures
        result == data_plan(Some(data@), *facts).0,
        step_views(final(steps)@) == step_views(old(steps)@) + data_plan(Some(data@), *facts).1,
{
    let former = join_path(data, "pastily");
    let present = join_path(data, "kitsupin");
    let from = join_path(former.as_str(), "pastily.sqlite3");
    let to = join_path(present.as_str(), "kitsupin.sqlite3");
    let aside = join_path(present.as_str(), "kitsupin.sqlite3.empty.bak");
    let ghost before = step_views(steps@);
    let ghost plan = data_plan(Some(data@), *facts).1;
    if facts.former.exists && !facts.present.exists {
        push_if(steps, true, FileStep::Rename { from: former, to: present.clone() });
        push_tidying(steps, present.as_str(), facts.former);
        assert(step_views(steps@) =~= before + plan);
        return LegacyMigrationResult::Renamed;
    }
    if !facts.present.exists {
        assert(step_views(steps@) =~= before + plan);
        return LegacyMigrationResult::NothingToDo;
    }
    push_tidying(steps, present.as_str(), facts.present);
    if !facts.former.exists || !facts.former.former_database {
        LegacyMigrationResult::NothingToDo
    } else if !facts.present.database && !facts.present.former_database {
        let backup = join_path(former.as_str(), "pastily.sqlite3.bak");
        push_if(steps, true, FileStep::CopyDatabase { from: from.clone(), to });
        push_if(steps, true, FileStep::Rename { from, to: backup });
        assert(step_views(steps@) =~= before + plan);
        LegacyMigrationResult::Copied
    } else if facts.present.database && facts.present.database_is_empty {
        push_if(steps, true, FileStep::Rename { from: to.clone(), to: aside.clone() });
        push_if(steps, true, FileStep::CopyDatabase { from, to });
        push_if(steps, true, FileStep::Remove(aside));
        assert(step_views(steps@) =~= before + plan);
        LegacyMigrationResult::ReplacedEmpty
    } else {
        push_if(steps, true, FileStep::MergeDatabase { from, into: to });
        assert(step_views(steps@) =~= before + plan);
        LegacyMigrationResult::Merged
    }
}

fn migrate_autostart(steps: &mut Vec<FileStep>, config: &str, facts: &LegacyFacts)
    ensures
        step_views(final(steps)@) == step_views(old(steps)@) + autostart_plan(
            Some(config@),
            *facts,
        ),
{
    let ghost before = step_views(steps@);
    let ghost plan = autostart_plan(Some(config@), *facts);
    let directory = join_path(config, "autostart");
    let old_entry = join_path(directory.as_str(), "pastily.desktop");
    let new_entry = join_path(directory.as_str(), "kitsupin.desktop");
    match &facts.former_autostart {
        FormerFile::Missing => {
            assert(step_views(steps@) =~= before + plan);
            return ;
        },
        FormerFile::Readable(contents) => {
            let contents = rename_in(contents.as_str());
            push_if(steps, !facts.autostart, FileStep::Write { path: new_entry, contents });
        },
        FormerFile::Unreadable => {
            push_if(
                steps,
                !facts.autostart,
                FileStep::Rename { from: old_entry.clone(), to: new_entry },
            );
        },
    }
    push_if(steps, true, FileStep::Remove(old_entry));
    assert(step_views(steps@) =~= before + plan);
}

fn migrate_manifest(
    steps: &mut Vec<FileStep>,
    config: &str,
    browser: &str,
    former: &FormerFile,
    known: bool,
)
    ensures
        step_views(final(steps)@) == step_views(old(steps)@) + manifest_plan(
            Some(config@),
            browser@,
            *former,
            known,
        ),
{
    let ghost before = step_views(steps@);
    let ghost plan = manifest_plan(Some(config@), browser@, *former, known);
    let directory = join_path(config, browser);
    let old_manifest = join_path(directory.as_str(), "app.pastily.native.json");
    let new_manifest = join_path(directory.as_str(), "io.github.mootxed.kitsupin.native.json");
    match former {
        FormerFile::Missing => {
            assert(step_views(steps@) =~= before + plan);
            return ;
        },
        FormerFile::Readable(contents) => {
            proof {
                reveal_strlit("app.pastily.native");
            }
            let hosted = replace_text(
                contents.as_str(),
                "app.pastily.native",
                "io.github.mootxed.kitsupin.native",
            );
            let contents = rename_in(hosted.as_str());
            push_if(steps, !known, FileStep::Write { path: new_manifest, contents });
        },
        FormerFile::Unreadable => {},
    }
    push_if(steps, true, FileStep::Remove(old_manifest));
    assert(step_views(steps@) =~= before + plan);
}

/// The data and the entries of the former application being moved, step by step.
#[derive(Debug)]
pub struct DataMove {
    ahead: Vec<FileStep>,
    entries: Vec<FileStep>,
    moved_aside: Option<(String, String)>,
    untouched: bool,
    result: LegacyMigrationResult,
}

#[verifier::ext_equal]
pub struct MoveView {
    /// The steps with the data that are still to be done.
    pub ahead: Seq<StepView>,
    /// The steps with the entries, which come afterwards whatever became of the data.
    pub entries: Seq<StepView>,
    /// Where a database was put to make room for a copy, and where it was before.
    pub moved_aside: Option<(Seq<char>, Seq<char>)>,
    /// Nothing has been tried yet.
    pub untouched: bool,
    pub result: LegacyMigrationResult,
}

pub open spec fn path_pair(pair: Option<(String, String)>) -> Option<(Seq<char>, Seq<char>)> {
    match pair {
        Some((to, from)) => Some((to@, from@)),
        None => None,
    }
}

impl View for DataMove {
    type V = MoveView;

    closed spec fn view(&self) -> MoveView {
        MoveView {
            ahead: step_views(self.ahead@),
            entries: step_views(self.entries@),
            moved_aside: path_pair(self.moved_aside),
            untouched: self.untouched,
            result: self.result,
        }
    }
}

impl StepView {
    /// A database is transferred.
    pub open spec fn transfers(self) -> bool {
        self is CopyDatabase || self is MergeDatabase
    }

    /// The step makes room for the copy that comes next.
    pub open spec fn makes_room_for(self, next: StepView) -> bool {
        self is Rename && next is CopyDatabase && self->Rename_from == next->CopyDatabase_to
    }
}

impl MoveView {
    pub open spec fn begun(
        data: Option<Seq<char>>,
        config: Option<Seq<char>>,
        facts: LegacyFacts,
    ) -> MoveView {
        MoveView {
            ahead: data_plan(data, facts).1,
            entries: entries_plan(config, facts),
            moved_aside: None,
            untouched: true,
            result: data_plan(data, facts).0,
        }
    }

    /// The step whose outcome is awaited.
    pub open spec fn pending(self) -> Option<StepView> {
        if self.ahead.len() > 0 {
            Some(self.ahead[0])
        } else if self.entries.len() > 0 {
            Some(self.entries[0])
        } else {
            None
        }
    }

    /// The pending step makes room for a copy.
    pub open spec fn makes_room(self) -> bool {
        self.ahead.len() > 1 && self.ahead[0].makes_room_for(self.ahead[1])
    }

    /// What puts back the database that was moved aside.
    pub open spec fn put_back(self) -> Seq<StepView> {
        match self.moved_aside {
            Some((aside, place)) => seq![StepView::Rename { from: aside, to: place }],
            None => Seq::empty(),
        }
    }

    /// After the pending step has been tried. Where a database could not be transferred, or no
    /// room could be made for it, nothing more is done with the data but to put back what was
    /// moved aside. Where the directory could not be renamed, its files cannot be either.
    pub open spec fn next(self, failed: bool) -> MoveView {
        let tried = MoveView { untouched: false, ..self };
        if self.ahead.len() == 0 {
            if self.entries.len() == 0 {
                tried
            } else {
                MoveView { entries: self.entries.drop_first(), ..tried }
            }
        } else if failed && (self.ahead[0].transfers() || self.makes_room()) {
            MoveView {
                ahead: self.put_back(),
                moved_aside: None,
                result: LegacyMigrationResult::ConflictPreserved,
                ..tried
            }
        } else if failed && self.untouched && self.result == LegacyMigrationResult::Renamed {
            MoveView {
                ahead: Seq::empty(),
                result: LegacyMigrationResult::NothingToDo,
                ..tried
            }
        } else {
            MoveView {
                ahead: self.ahead.drop_first(),
                moved_aside: if self.ahead[0].transfers() {
                    None
                } else if self.makes_room() && !failed {
                    Some((self.ahead[0]->Rename_to, self.ahead[0]->Rename_from))
                } else {
                    self.moved_aside
                },
                ..tried
            }
        }
    }

    /// After several steps have been tried, each with its outcome.
    pub open spec fn after(self, failures: Seq<bool>) -> MoveView
        decreases failures.len(),
    {
        if failures.len() == 0 {
            self
        } else {
            self.after(failures.drop_last()).next(failures.last())
        }
    }
}

/// Begins to move the data, the entry for starting with the session, and the manifests of the
/// former application. The directories are those of all applications, where known.
pub fn migrate_pastily_to_kitsupin(
    data: Option<&str>,
    config: Option<&str>,
    facts: &LegacyFacts,
) -> (begun: DataMove)
    ensures
        begun@ == MoveView::begun(text::slice_of(data), text::slice_of(config), *facts),
{
    let mut ahead: Vec<FileStep> = Vec::new();
    let mut entries: Vec<FileStep> = Vec::new();
    assert(step_views(ahead@) =~= Seq::empty());
    assert(step_views(entries@) =~= Seq::empty());
    if facts.locked {
        return DataMove {
            ahead,
            entries,
            moved_aside: None,
            untouched: true,
            result: LegacyMigrationResult::ConflictPreserved,
        };
    }
    let result = match data {
        Some(data) => migrate_data_dir(&mut ahead, data, facts),
        None => LegacyMigrationResult::NothingToDo,
    };
    match config {
        Some(config) => {
            migrate_autostart(&mut entries, config, facts);
            migrate_manifest(
                &mut entries,
                config,
                "google-chrome/NativeMessagingHosts",
                &facts.former_chrome_manifest,
                facts.chrome_manifest,
            );
            migrate_manifest(
                &mut entries,
                config,
                "chromium/NativeMessagingHosts",
                &facts.former_chromium_manifest,
                facts.chromium_manifest,
            );
        },
        None => {},
    }
    assert(step_views(ahead@) =~= data_plan(text::slice_of(data), *facts).1);
    assert(step_views(entries@) =~= entries_plan(text::slice_of(config), *facts));
    DataMove { ahead, entries, moved_aside: None, untouched: true, result }
}

impl DataMove {
    /// The step to be done next, if any.
    pub fn pending(&self) -> (step: Option<&FileStep>)
        ensures
            match step {
                Some(step) => self@.pending() == Some(step@),
                None => self@.pending() is None,
            },
    {
        if self.ahead.len() > 0 {
            assert(step_views(self.ahead@)[0] == self.ahead@[0]@);
            Some(&self.ahead[0])
        } else if self.entries.len() > 0 {
            assert(step_views(self.entries@)[0] == self.entries@[0]@);
            Some(&self.entries[0])
        } else {
            None
        }
    }

    /// How the data were dealt with, as far as it is known.
    pub fn result(&self) -> (result: LegacyMigrationResult)
        ensures
            result == self@.result,
    {
        self.result
    }

    /// The paths of the pending step, if it makes room for a copy: where to, and from where.
    fn room(&self) -> (room: Option<(String, String)>)
        ensures
            match room {
                Some(room) => self@.makes_room() && room.0@ == self@.ahead[0]->Rename_to
                    && room.1@ == self@.ahead[0]->Rename_from,
                None => !self@.makes_room(),
            },
    {
        if self.ahead.len() < 2 {
            return None;
        }
        proof {
            assert(step_views(self.ahead@)[0] == self.ahead@[0]@);
            assert(step_views(self.ahead@)[1] == self.ahead@[1]@);
        }
        match (&self.ahead[0], &self.ahead[1]) {
            (FileStep::Rename { from, to }, FileStep::CopyDatabase { to: place, .. }) => {
                if same_text(from.as_str(), place.as_str()) {
                    Some((to.clone(), from.clone()))
                } else {
                    None
                }
            },
            _ => None,
        }
    }

    /// Takes note of how the pending step went.
    pub fn advance(&mut self, failed: bool)
        ensures
            final(self)@ == old(self)@.next(failed),
    {
        let ghost before = self@;
        let room = self.room();
        let first = self.untouched;
        self.untouched = false;
        if self.ahead.len() == 0 {
            if self.entries.len() > 0 {
                let ghost entries = self.entries@;
                self.entries.remove(0);
                assert(step_views(self.entries@) =~= step_views(entries).drop_first());
            }
            assert(self@ =~= before.next(failed));
            return ;
        }
        assert(step_views(self.ahead@)[0] == self.ahead@[0]@);
        let transfers = match &self.ahead[0] {
            FileStep::CopyDatabase { .. } => true,
            FileStep::MergeDatabase { .. } => true,
            _ => false,
        };
        if failed && (transfers || room.is_some()) {
            let mut moved_aside: Option<(String, String)> = None;
            std::mem::swap(&mut moved_aside, &mut self.moved_aside);
            let mut ahead: Vec<FileStep> = Vec::new();
            if let Some((aside, place)) = moved_aside {
                ahead.push(FileStep::Rename { from: aside, to: place });
            }
            self.ahead = ahead;
            self.result = LegacyMigrationResult::ConflictPreserved;
        } else if failed && first && self.result == LegacyMigrationResult::Renamed {
            self.ahead = Vec::new();
            self.result = LegacyMigrationResult::NothingToDo;
        } else {
            let ghost ahead = self.ahead@;
            self.ahead.remove(0);
            assert(step_views(self.ahead@) =~= step_views(ahead).drop_first());
            if transfers {
                self.moved_aside = None;
            } else if room.is_some() && !failed {
                self.moved_aside = room;
            }
        }
        assert(self@ =~= before.next(failed));
    }
}

/// While someone else is moving the data, nothing is touched; and where nothing was left by the
/// former application and no socket was left either, there is nothing to do.
pub proof fn nothing_is_touched_without_need(
    data: Option<Seq<char>>,
    config: Option<Seq<char>>,
    facts: LegacyFacts,
)
    requires
        facts.locked || (!facts.former.exists && !facts.present.former_database
            && !facts.present.former_wal && !facts.present.former_shm && !facts.present.socket
            && facts.former_autostart is Missing && facts.former_chrome_manifest is Missing
            && facts.former_chromium_manifest is Missing),
    ensures
        MoveView::begun(data, config, facts).pending() is None,
{
}

/// Where a database cannot be transferred, nothing is removed or renamed any more of the data, but
/// for the database that was moved aside, which gets its name back; the entries are dealt with
/// nevertheless.
pub proof fn failed_transfer_puts_back(moving: MoveView)
    requires
        moving.ahead.len() > 0,
        moving.ahead[0].transfers() || moving.makes_room(),
    ensures
        moving.next(true).ahead == moving.put_back(),
        moving.next(true).entries == moving.entries,
        moving.next(true).result == LegacyMigrationResult::ConflictPreserved,
        moving.put_back().len() <= 1,
        forall|k: int|
            0 <= k < moving.put_back().len() ==> (
            #[trigger] moving.put_back()[k] matches StepView::Rename { from, to }
                && moving.moved_aside == Some((from, to))),
{
}

/// Of the data, a socket that was left is removed and an empty database whose place was taken,
/// and nothing else.
#[verifier::spinoff_prover]
#[verifier::rlimit(40)]
pub proof fn only_leavings_are_removed(data: Seq<char>, facts: LegacyFacts, k: int)
    requires
        0 <= k < data_plan(Some(data), facts).1.len(),
        data_plan(Some(data), facts).1[k] is Remove,
    ensures
        ({
            let (result, steps) = data_plan(Some(data), facts);
            let present = blob_store::joined(data, "kitsupin"@);
            let removed = steps[k]->Remove_0;
            ||| removed == blob_store::joined(present, "native.sock"@)
            ||| {
                &&& facts.present.database_is_empty
                &&& result == LegacyMigrationResult::ReplacedEmpty
                &&& removed == blob_store::joined(present, "kitsupin.sqlite3.empty.bak"@)
                &&& k == steps.len() - 1
                &&& steps[k - 1] is CopyDatabase
            }
        }),
{
}

impl FilesView {
    /// After a step that renames or removes a file. The steps on databases are not told here.
    pub open spec fn after(self, step: StepView) -> FilesView {
        match step {
            StepView::Rename { from, to } => self.renamed(from, to),
            StepView::Remove(path) => self.removed(path),
            _ => self,
        }
    }

    pub open spec fn after_all(self, steps: Seq<StepView>) -> FilesView
        decreases steps.len(),
    {
        if steps.len() == 0 {
            self
        } else {
            self.after_all(steps.drop_last()).after(steps.last())
        }
    }
}

impl DirectoryFacts {
    /// The facts are those of a directory.
    pub open spec fn describe(self, directory: Seq<char>, files: FilesView) -> bool {
        let has = |name: Seq<char>|
            files.files.contains_key(blob_store::joined(directory, name));
        &&& self.exists == files.directories.contains(directory)
        &&& self.former_database == has("pastily.sqlite3"@)
        &&& self.former_wal == has("pastily.sqlite3-wal"@)
        &&& self.former_shm == has("pastily.sqlite3-shm"@)
        &&& self.database == has("kitsupin.sqlite3"@)
        &&& self.wal == has("kitsupin.sqlite3-wal"@)
        &&& self.shm == has("kitsupin.sqlite3-shm"@)
        &&& self.socket == has("native.sock"@)
    }

    /// The name that a file of the former directory has in the present one.
    pub open spec fn new_name(self, name: Seq<char>) -> Seq<char> {
        if name == "pastily.sqlite3"@ && !self.database {
            "kitsupin.sqlite3"@
        } else if name == "pastily.sqlite3-wal"@ && !self.wal {
            "kitsupin.sqlite3-wal"@
        } else if name == "pastily.sqlite3-shm"@ && !self.shm {
            "kitsupin.sqlite3-shm"@
        } else {
            name
        }
    }
}

proof fn lemma_after_all(files: FilesView, first: Seq<StepView>, second: Seq<StepView>)
    ensures
        files.after_all(first + second) == files.after_all(first).after_all(second),
    decreases second.len(),
{
    if second.len() == 0 {
        assert(first + second =~= first);
    } else {
        assert((first + second).drop_last() =~= first + second.drop_last());
        lemma_after_all(files, first, second.drop_last());
    }
}

proof fn lemma_after_one(files: FilesView, holds: bool, step: StepView)
    ensures
        files.after_all(only_if(holds, step)) == (if holds {
            files.after(step)
        } else {
            files
        }),
{
    let steps = only_if(holds, step);
    if holds {
        assert(steps.drop_last() =~= Seq::empty());
        assert(files.after_all(steps.drop_last()) == files);
    }
}

/// The names that matter differ, and so do their paths.
proof fn lemma_names_differ()
    ensures
        "pastily.sqlite3"@ != "pastily.sqlite3-wal"@,
        "pastily.sqlite3"@ != "pastily.sqlite3-shm"@,
        "pastily.sqlite3"@ != "kitsupin.sqlite3"@,
        "pastily.sqlite3"@ != "kitsupin.sqlite3-wal"@,
        "pastily.sqlite3"@ != "kitsupin.sqlite3-shm"@,
        "pastily.sqlite3"@ != "native.sock"@,
        "pastily.sqlite3-wal"@ != "pastily.sqlite3-shm"@,
        "pastily.sqlite3-wal"@ != "kitsupin.sqlite3"@,
        "pastily.sqlite3-wal"@ != "kitsupin.sqlite3-wal"@,
        "pastily.sqlite3-wal"@ != "kitsupin.sqlite3-shm"@,
        "pastily.sqlite3-wal"@ != "native.sock"@,
        "pastily.sqlite3-shm"@ != "kitsupin.sqlite3"@,
        "pastily.sqlite3-shm"@ != "kitsupin.sqlite3-wal"@,
        "pastily.sqlite3-shm"@ != "kitsupin.sqlite3-shm"@,
        "pastily.sqlite3-shm"@ != "native.sock"@,
        "kitsupin.sqlite3"@ != "kitsupin.sqlite3-wal"@,
        "kitsupin.sqlite3"@ != "kitsupin.sqlite3-shm"@,
        "kitsupin.sqlite3"@ != "native.sock"@,
        "kitsupin.sqlite3-wal"@ != "kitsupin.sqlite3-shm"@,
        "kitsupin.sqlite3-wal"@ != "native.sock"@,
        "kitsupin.sqlite3-shm"@ != "native.sock"@,
{
    reveal_strlit("pastily.sqlite3");
    reveal_strlit("pastily.sqlite3-wal");
    reveal_strlit("pastily.sqlite3-shm");
    reveal_strlit("kitsupin.sqlite3");
    reveal_strlit("kitsupin.sqlite3-wal");
    reveal_strlit("kitsupin.sqlite3-shm");
    reveal_strlit("native.sock");
    assert("pastily.sqlite3"@.len() == 15);
    assert("pastily.sqlite3-wal"@.len() == 19);
    assert("pastily.sqlite3-shm"@.len() == 19);
    assert("kitsupin.sqlite3"@.len() == 16);
    assert("kitsupin.sqlite3-wal"@.len() == 20);
    assert("kitsupin.sqlite3-shm"@.len() == 20);
    assert("native.sock"@.len() == 11);
    assert("pastily.sqlite3-wal"@[16] != "pastily.sqlite3-shm"@[16]);
    assert("kitsupin.sqlite3-wal"@[17] != "kitsupin.sqlite3-shm"@[17]);
}

/// A path tells the name.
proof fn lemma_joined(directory: Seq<char>, a: Seq<char>, b: Seq<char>)
    ensures
        blob_store::joined(directory, a) == blob_store::joined(directory, b) <==> a == b,
{
    let whole = blob_store::joined(directory, a);
    let other = blob_store::joined(directory, b);
    let start = whole.len() - a.len();
    assert(whole.skip(start) =~= a);
    if whole == other {
        assert(other.skip(start) =~= b);
    }
}

/// What tidying does to files.
proof fn lemma_tidied(
    files: FilesView,
    directory: Seq<char>,
    facts: DirectoryFacts,
    name: Seq<char>,
)
    requires
        files.wf(),
        facts.describe(directory, files),
    ensures
        ({
            let after = files.after_all(tidied(directory, facts));
            let there = files.files.contains_key(blob_store::joined(directory, name));
            let path = blob_store::joined(directory, facts.new_name(name));
            &&& after.directories == files.directories
            &&& there && name != "native.sock"@ ==> after.files.contains_key(path)
                && after.files[path] == files.files[blob_store::joined(directory, name)]
            &&& !after.files.contains_key(blob_store::joined(directory, "native.sock"@))
            &&& !after.files.contains_key(blob_store::joined(directory, "pastily.sqlite3"@))
                || after.files.contains_key(blob_store::joined(directory, "kitsupin.sqlite3"@))
            &&& !after.files.contains_key(blob_store::joined(directory, "pastily.sqlite3-wal"@))
                || after.files.contains_key(
                blob_store::joined(directory, "kitsupin.sqlite3-wal"@),
            )
            &&& !after.files.contains_key(blob_store::joined(directory, "pastily.sqlite3-shm"@))
                || after.files.contains_key(
                blob_store::joined(directory, "kitsupin.sqlite3-shm"@),
            )
            &&& forall|other: Seq<char>|
                (forall|n: Seq<char>| other != #[trigger] blob_store::joined(directory, n)) ==> (
                #[trigger] after.files.contains_key(other) <==> files.files.contains_key(other))
                    && (after.files.contains_key(other) ==> after.files[other]
                    == files.files[other])
        }),
{
    lemma_names_differ();
    let database = blob_store::joined(directory, "pastily.sqlite3"@);
    let wal = blob_store::joined(directory, "pastily.sqlite3-wal"@);
    let shm = blob_store::joined(directory, "pastily.sqlite3-shm"@);
    let new_database = blob_store::joined(directory, "kitsupin.sqlite3"@);
    let new_wal = blob_store::joined(directory, "kitsupin.sqlite3-wal"@);
    let new_shm = blob_store::joined(directory, "kitsupin.sqlite3-shm"@);
    let socket = blob_store::joined(directory, "native.sock"@);
    assert forall|a: Seq<char>, b: Seq<char>|
        #[trigger] blob_store::joined(directory, a) == #[trigger] blob_store::joined(directory, b)
            implies a == b by {
        lemma_joined(directory, a, b);
    }
    let first = only_if(
        facts.former_database && !facts.database,
        rename_step(directory, "pastily.sqlite3"@, "kitsupin.sqlite3"@),
    );
    let second = only_if(
        facts.former_wal && !facts.wal,
        rename_step(directory, "pastily.sqlite3-wal"@, "kitsupin.sqlite3-wal"@),
    );
    let third = only_if(
        facts.former_shm && !facts.shm,
        rename_step(directory, "pastily.sqlite3-shm"@, "kitsupin.sqlite3-shm"@),
    );
    let fourth = only_if(facts.socket, StepView::Remove(socket));
    lemma_after_all(files, first + second + third, fourth);
    lemma_after_all(files, first + second, third);
    lemma_after_all(files, first, second);
    let one = files.after_all(first);
    let two = one.after_all(second);
    let three = two.after_all(third);
    let four = three.after_all(fourth);
    lemma_after_one(
        files,
        facts.former_database && !facts.database,
        rename_step(directory, "pastily.sqlite3"@, "kitsupin.sqlite3"@),
    );
    lemma_after_one(
        one,
        facts.former_wal && !facts.wal,
        rename_step(directory, "pastily.sqlite3-wal"@, "kitsupin.sqlite3-wal"@),
    );
    lemma_after_one(
        two,
        facts.former_shm && !facts.shm,
        rename_step(directory, "pastily.sqlite3-shm"@, "kitsupin.sqlite3-shm"@),
    );
    lemma_after_one(three, facts.socket, StepView::Remove(socket));
    assert(files.after_all(tidied(directory, facts)) == four);
}

/// The two data directories are apart, and their files are known by their names.
proof fn lemma_directories(data: Seq<char>, name: Seq<char>)
    ensures
        ({
            let former = blob_store::joined(data, "pastily"@);
            let present = blob_store::joined(data, "kitsupin"@);
            let old_path = blob_store::joined(former, name);
            let new_path = blob_store::joined(present, name);
            &&& former != present
            &&& !files::is_below(present, former)
            &&& !files::is_below(former, present)
            &&& !files::is_below(present, old_path)
            &&& !files::is_below(former, new_path)
            &&& files::is_below(former, old_path)
            &&& files::is_below(present, new_path)
            &&& files::redirected(new_path, present, former) == old_path
            &&& files::redirected(present, present, former) == former
        }),
{
    reveal_strlit("pastily");
    reveal_strlit("kitsupin");
    let former = blob_store::joined(data, "pastily"@);
    let present = blob_store::joined(data, "kitsupin"@);
    let old_path = blob_store::joined(former, name);
    let new_path = blob_store::joined(present, name);
    let start = former.len() - 7;
    assert(former.last() == "pastily"@[6]);
    assert(present.last() == "kitsupin"@[7]);
    assert(former[start] == 'p');
    assert(present[start] == 'k');
    assert(old_path[start] == 'p');
    assert(new_path[start] == 'k');
    assert(old_path.take(former.len() as int) =~= former);
    assert(new_path.take(present.len() as int) =~= present);
    if files::is_below(present, old_path) {
        assert(old_path.take(present.len() as int)[start] == present[start]);
    }
    if files::is_below(former, new_path) {
        assert(new_path.take(former.len() as int)[start] == former[start]);
    }
    if files::is_below(former, present) {
        assert(present.take(former.len() as int)[start] == former[start]);
    }
    assert(files::redirected(new_path, present, former) =~= old_path);
    assert(files::redirected(present, present, former) =~= former);
}

/// Where only the former data directory is there, it gets the present name with all that is in
/// it: its files keep their contents, those of the database get their new names, and a socket
/// that was left is removed. Nothing else changes.
pub proof fn moving_keeps_the_files(
    data: Seq<char>,
    facts: LegacyFacts,
    files: FilesView,
    name: Seq<char>,
)
    requires
        files.wf(),
        !facts.locked,
        facts.former.exists,
        !facts.present.exists,
        facts.former.describe(blob_store::joined(data, "pastily"@), files),
        facts.present.describe(blob_store::joined(data, "kitsupin"@), files),
        !files.files.contains_key(blob_store::joined(data, "kitsupin"@)),
    ensures
        ({
            let former = blob_store::joined(data, "pastily"@);
            let present = blob_store::joined(data, "kitsupin"@);
            let (result, steps) = data_plan(Some(data), facts);
            let after = files.after_all(steps);
            let old_path = blob_store::joined(former, name);
            let new_path = blob_store::joined(present, facts.former.new_name(name));
            &&& result == LegacyMigrationResult::Renamed
            &&& !after.directories.contains(former)
            &&& after.directories.contains(present)
            &&& !after.files.contains_key(old_path)
            &&& !after.files.contains_key(blob_store::joined(present, "native.sock"@))
            &&& files.files.contains_key(old_path) && name != "native.sock"@
                ==> after.files.contains_key(new_path) && after.files[new_path]
                == files.files[old_path]
            &&& forall|other: Seq<char>|
                !files::is_below(former, other) && !files::is_below(present, other) ==> (
                #[trigger] after.files.contains_key(other) <==> files.files.contains_key(other))
                    && (after.files.contains_key(other) ==> after.files[other]
                    == files.files[other])
        }),
{
    let former = blob_store::joined(data, "pastily"@);
    let present = blob_store::joined(data, "kitsupin"@);
    let moved = files.renamed(former, present);
    let steps = data_plan(Some(data), facts).1;
    let first = only_if(true, StepView::Rename { from: former, to: present });
    assert(first =~= seq![StepView::Rename { from: former, to: present }]);
    lemma_after_all(files, first, tidied(present, facts.former));
    lemma_after_one(files, true, StepView::Rename { from: former, to: present });
    lemma_moved(data, facts.former, files);
    lemma_tidied(moved, present, facts.former, name);
    lemma_directories(data, name);
    assert(files::is_below(present, blob_store::joined(present, name)));
    let after = files.after_all(steps);
    let old_path = blob_store::joined(former, name);
    assert forall|n: Seq<char>| old_path != #[trigger] blob_store::joined(present, n) by {
        lemma_directories(data, n);
    }
    assert(!after.files.contains_key(old_path));
    assert forall|other: Seq<char>|
        !files::is_below(former, other) && !files::is_below(present, other) implies (
    #[trigger] after.files.contains_key(other) <==> files.files.contains_key(other)) && (
    after.files.contains_key(other) ==> after.files[other] == files.files[other]) by {
        assert forall|n: Seq<char>| other != #[trigger] blob_store::joined(present, n) by {
            lemma_directories(data, n);
        }
        assert(moved.files.contains_key(other) <==> files.files.contains_key(other));
    }
}

/// The former directory under the present name.
proof fn lemma_moved(data: Seq<char>, facts: DirectoryFacts, files: FilesView)
    requires
        files.wf(),
        facts.exists,
        facts.describe(blob_store::joined(data, "pastily"@), files),
        !files.files.contains_key(blob_store::joined(data, "kitsupin"@)),
    ensures
        ({
            let former = blob_store::joined(data, "pastily"@);
            let present = blob_store::joined(data, "kitsupin"@);
            let moved = files.renamed(former, present);
            &&& moved.wf()
            &&& facts.describe(present, moved)
            &&& !moved.directories.contains(former)
        }),
{
    let former = blob_store::joined(data, "pastily"@);
    let present = blob_store::joined(data, "kitsupin"@);
    let moved = files.renamed(former, present);
    lemma_directories(data, "pastily.sqlite3"@);
    lemma_directories(data, "pastily.sqlite3-wal"@);
    lemma_directories(data, "pastily.sqlite3-shm"@);
    lemma_directories(data, "kitsupin.sqlite3"@);
    lemma_directories(data, "kitsupin.sqlite3-wal"@);
    lemma_directories(data, "kitsupin.sqlite3-shm"@);
    lemma_directories(data, "native.sock"@);
}

/// Moving the data once more does nothing: neither after the former directory got the present
/// name, nor where there was only the present one.
pub proof fn moving_twice_is_moving_once(
    data: Seq<char>,
    facts: LegacyFacts,
    files: FilesView,
    later: LegacyFacts,
)
    requires
        files.wf(),
        !facts.locked,
        facts.former.exists != facts.present.exists,
        facts.former.describe(blob_store::joined(data, "pastily"@), files),
        facts.present.describe(blob_store::joined(data, "kitsupin"@), files),
        !files.files.contains_key(blob_store::joined(data, "kitsupin"@)),
        !later.locked,
        ({
            let after = files.after_all(data_plan(Some(data), facts).1);
            &&& later.former.describe(blob_store::joined(data, "pastily"@), after)
            &&& later.present.describe(blob_store::joined(data, "kitsupin"@), after)
        }),
    ensures
        data_plan(Some(data), later) == (
            LegacyMigrationResult::NothingToDo,
            Seq::<StepView>::empty(),
        ),
{
    let present = blob_store::joined(data, "kitsupin"@);
    if facts.former.exists {
        let former = blob_store::joined(data, "pastily"@);
        let moved = files.renamed(former, present);
        let first = only_if(true, StepView::Rename { from: former, to: present });
        assert(first =~= seq![StepView::Rename { from: former, to: present }]);
        lemma_after_all(files, first, tidied(present, facts.former));
        lemma_after_one(files, true, StepView::Rename { from: former, to: present });
        lemma_moved(data, facts.former, files);
        lemma_tidied(moved, present, facts.former, Seq::empty());
    } else {
        lemma_tidied(files, present, facts.present, Seq::empty());
    }
    assert(data_plan(Some(data), later).1 =~= Seq::empty());
}

/// A step of tidying transfers nothing and makes no room for a copy of the database.
spec fn only_tidies(directory: Seq<char>, step: StepView) -> bool {
    step is Remove || (step is Rename && step->Rename_from != blob_store::joined(
        directory,
        "kitsupin.sqlite3"@,
    ))
}

proof fn lemma_tidying_steps(directory: Seq<char>, facts: DirectoryFacts, k: int)
    requires
        0 <= k < tidied(directory, facts).len(),
    ensures
        only_tidies(directory, tidied(directory, facts)[k]),
{
    lemma_names_differ();
    lemma_joined(directory, "pastily.sqlite3"@, "kitsupin.sqlite3"@);
    lemma_joined(directory, "pastily.sqlite3-wal"@, "kitsupin.sqlite3"@);
    lemma_joined(directory, "pastily.sqlite3-shm"@, "kitsupin.sqlite3"@);
    let first = only_if(
        facts.former_database && !facts.database,
        rename_step(directory, "pastily.sqlite3"@, "kitsupin.sqlite3"@),
    );
    let second = only_if(
        facts.former_wal && !facts.wal,
        rename_step(directory, "pastily.sqlite3-wal"@, "kitsupin.sqlite3-wal"@),
    );
    let third = only_if(
        facts.former_shm && !facts.shm,
        rename_step(directory, "pastily.sqlite3-shm"@, "kitsupin.sqlite3-shm"@),
    );
    if k < first.len() {
        assert(tidied(directory, facts)[k] == first[k]);
    } else if k < (first + second).len() {
        assert(tidied(directory, facts)[k] == second[k - first.len()]);
    } else if k < (first + second + third).len() {
        assert(tidied(directory, facts)[k] == third[k - (first + second).len()]);
    }
}

/// Whatever becomes of the tidying, the steps after it are still ahead.
proof fn lemma_tidying_goes_on(
    data: Seq<char>,
    config: Option<Seq<char>>,
    facts: LegacyFacts,
    failures: Seq<bool>,
)
    requires
        !facts.locked,
        facts.present.exists,
        failures.len() <= tidied(blob_store::joined(data, "kitsupin"@), facts.present).len(),
    ensures
        ({
            let begun = MoveView::begun(Some(data), config, facts);
            begun.after(failures) == (MoveView {
                ahead: begun.ahead.skip(failures.len() as int),
                untouched: failures.len() == 0,
                ..begun
            })
        }),
    decreases failures.len(),
{
    let begun = MoveView::begun(Some(data), config, facts);
    let present = blob_store::joined(data, "kitsupin"@);
    let tidy = tidied(present, facts.present);
    assert(begun.ahead.take(tidy.len() as int) =~= tidy);
    if failures.len() == 0 {
        assert(begun.ahead.skip(0) =~= begun.ahead);
    } else {
        let n = failures.len() - 1;
        lemma_tidying_goes_on(data, config, facts, failures.drop_last());
        let at = begun.after(failures.drop_last());
        lemma_tidying_steps(present, facts.present, n);
        assert(at.ahead[0] == begun.ahead[n]);
        assert(begun.ahead[n] == tidy[n]);
        if n + 1 < tidy.len() {
            lemma_tidying_steps(present, facts.present, n + 1);
            assert(begun.ahead[n + 1] == tidy[n + 1]);
            assert(at.ahead[1] == begun.ahead[n + 1]);
        } else if at.ahead.len() > 1 {
            assert(at.ahead[1] == begun.ahead[n + 1]);
        }
        assert(!at.makes_room());
        assert(at.ahead.drop_first() =~= begun.ahead.skip(n + 1));
        assert(at.next(failures.last()) =~= (MoveView {
            ahead: begun.ahead.skip(n + 1),
            untouched: false,
            ..begun
        }));
    }
}

/// An empty database that was moved aside for a copy gets its name back where the copy fails, and
/// is not removed.
pub proof fn failed_replacement_is_undone(
    data: Seq<char>,
    config: Option<Seq<char>>,
    facts: LegacyFacts,
    failures: Seq<bool>,
)
    requires
        data_plan(Some(data), facts).0 == LegacyMigrationResult::ReplacedEmpty,
        ({
            let present = blob_store::joined(data, "kitsupin"@);
            let count = tidied(present, facts.present).len() as int;
            failures.len() == count + 2 && !failures[count] && failures[count + 1]
        }),
    ensures
        ({
            let present = blob_store::joined(data, "kitsupin"@);
            let moving = MoveView::begun(Some(data), config, facts).after(failures);
            &&& moving.ahead == seq![
                StepView::Rename {
                    from: blob_store::joined(present, "kitsupin.sqlite3.empty.bak"@),
                    to: blob_store::joined(present, "kitsupin.sqlite3"@),
                },
            ]
            &&& moving.entries == entries_plan(config, facts)
            &&& moving.result == LegacyMigrationResult::ConflictPreserved
        }),
{
    let begun = MoveView::begun(Some(data), config, facts);
    let present = blob_store::joined(data, "kitsupin"@);
    let count = tidied(present, facts.present).len() as int;
    let tidied_first = failures.take(count);
    lemma_tidying_goes_on(data, config, facts, tidied_first);
    let moving = begun.after(tidied_first);
    assert(failures.drop_last().drop_last() =~= tidied_first);
    assert(failures.drop_last().last() == failures[count]);
    assert(moving.ahead[0] == begun.ahead[count]);
    assert(moving.ahead[1] == begun.ahead[count + 1]);
    assert(moving.makes_room());
    let aside = moving.next(false);
    assert(aside.ahead[0] == begun.ahead[count + 1]);
    assert(begun.after(failures.drop_last()) == aside);
    assert(begun.after(failures) == aside.next(true));
}

/// The former database is not renamed to a backup where it could not be copied.
pub proof fn uncopied_database_keeps_its_name(
    data: Seq<char>,
    config: Option<Seq<char>>,
    facts: LegacyFacts,
    failures: Seq<bool>,
)
    requires
        data_plan(Some(data), facts).0 == LegacyMigrationResult::Copied,
        failures.len() == tidied(blob_store::joined(data, "kitsupin"@), facts.present).len() + 1,
        failures.last(),
    ensures
        ({
            let moving = MoveView::begun(Some(data), config, facts).after(failures);
            &&& moving.ahead.len() == 0
            &&& moving.entries == entries_plan(config, facts)
            &&& moving.result == LegacyMigrationResult::ConflictPreserved
        }),
{
    let begun = MoveView::begun(Some(data), config, facts);
    let count = failures.len() - 1;
    lemma_tidying_goes_on(data, config, facts, failures.drop_last());
    let moving = begun.after(failures.drop_last());
    assert(moving.ahead[0] == begun.ahead[count]);
    assert(begun.after(failures) == moving.next(true));
}

} // verus!
