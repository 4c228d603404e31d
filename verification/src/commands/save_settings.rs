//! Putting new settings in force, step by step, with everything undone where a step fails.

use crate::settings::{Settings, SettingsError, SettingsView};
use crate::text;
use crate::text::same_text;
use vstd::prelude::*;

verus! {

/// The step whose outcome is awaited.
#[derive(Debug, Clone, Copy, PartialEq, Eq, Structural)]
pub enum SaveStage {
    RegisterNew,
    UnregisterOld,
    /// The old shortcut could not be given up, so the new one is.
    UndoNew,
    Autostart,
    Write,
    UndoAutostart,
    UndoShortcut,
    RestoreShortcut,
    Done,
    Failed,
}

/// What is to be done next.
#[derive(Debug, PartialEq, Eq)]
pub enum SaveAction {
    Register(String),
    Unregister(String),
    SetAutostart(bool),
    /// Write the settings file.
    WriteFile,
    /// All is done: put the rest of the settings in force.
    Apply,
    /// Nothing more is done; this is reported.
    Fail(String),
}

#[verifier::ext_equal]
pub enum ActionView {
    Register(Seq<char>),
    Unregister(Seq<char>),
    SetAutostart(bool),
    WriteFile,
    Apply,
    Fail(Seq<char>),
}

impl View for SaveAction {
    type V = ActionView;

    open spec fn view(&self) -> ActionView {
        match self {
            SaveAction::Register(shortcut) => ActionView::Register(shortcut@),
            SaveAction::Unregister(shortcut) => ActionView::Unregister(shortcut@),
            SaveAction::SetAutostart(enabled) => ActionView::SetAutostart(*enabled),
            SaveAction::WriteFile => ActionView::WriteFile,
            SaveAction::Apply => ActionView::Apply,
            SaveAction::Fail(message) => ActionView::Fail(message@),
        }
    }
}

/// The settings being saved.
#[derive(Debug)]
pub struct SaveSettings {
    previous: Settings,
    wanted: Settings,
    old_registered: Option<String>,
    registered: Option<String>,
    stage: SaveStage,
    message: String,
}

#[verifier::ext_equal]
pub struct SaveView {
    pub previous: SettingsView,
    pub wanted: SettingsView,
    /// The shortcut that was registered in the beginning.
    pub old_registered: Option<Seq<char>>,
    /// The shortcut that counts as registered now.
    pub registered: Option<Seq<char>>,
    pub stage: SaveStage,
    /// What will be reported where a step has failed.
    pub message: Seq<char>,
}

impl View for SaveSettings {
    type V = SaveView;

    closed spec fn view(&self) -> SaveView {
        SaveView {
            previous: self.previous@,
            wanted: self.wanted@,
            old_registered: text::text_of(self.old_registered),
            registered: text::text_of(self.registered),
            stage: self.stage,
            message: self.message@,
        }
    }
}

impl SaveView {
    pub open spec fn shortcut_changes(self) -> bool {
        self.previous.shortcut != self.wanted.shortcut
    }

    pub open spec fn autostart_changes(self) -> bool {
        self.previous.autostart != self.wanted.autostart
    }

    pub open spec fn at(self, stage: SaveStage) -> SaveView {
        SaveView { stage, ..self }
    }

    /// Changing autostart comes after the shortcut, writing the file last.
    pub open spec fn after_shortcut(self) -> (SaveView, ActionView) {
        if self.autostart_changes() {
            (self.at(SaveStage::Autostart), ActionView::SetAutostart(self.wanted.autostart))
        } else {
            (self.at(SaveStage::Write), ActionView::WriteFile)
        }
    }

    pub open spec fn give_up(self) -> (SaveView, ActionView) {
        (self.at(SaveStage::Failed), ActionView::Fail(self.message))
    }

    /// A new shortcut is given up again.
    pub open spec fn undo_shortcut(self) -> (SaveView, ActionView) {
        if self.shortcut_changes() {
            (self.at(SaveStage::UndoShortcut), ActionView::Unregister(self.wanted.shortcut))
        } else {
            self.give_up()
        }
    }

    /// The first step. Settings that are not valid are refused before anything is done.
    pub open spec fn begun(self) -> (SaveView, ActionView) {
        if !self.wanted.valid() {
            SaveView { message: SettingsError::RetentionOutOfRange.text(), ..self }.give_up()
        } else if self.shortcut_changes() {
            (self.at(SaveStage::RegisterNew), ActionView::Register(self.wanted.shortcut))
        } else {
            self.after_shortcut()
        }
    }

    /// The step after one whose `failure` is given, if it has failed.
    pub open spec fn next(self, failure: Option<Seq<char>>) -> (SaveView, ActionView) {
        match self.stage {
            SaveStage::RegisterNew => match (failure, self.old_registered) {
                (Some(reason), _) => SaveView {
                    message: "Не удалось зарегистрировать горячую клавишу '"@
                        + self.wanted.shortcut + "': "@ + reason,
                    ..self
                }.give_up(),
                (None, Some(old)) => (
                    self.at(SaveStage::UnregisterOld),
                    ActionView::Unregister(old),
                ),
                (None, None) => SaveView {
                    registered: Some(self.wanted.shortcut),
                    ..self
                }.after_shortcut(),
            },
            SaveStage::UnregisterOld => match failure {
                Some(reason) => (
                    SaveView {
                        message: "Не удалось снять старую горячую клавишу '"@
                            + self.old_registered->0 + "': "@ + reason,
                        stage: SaveStage::UndoNew,
                        ..self
                    },
                    ActionView::Unregister(self.wanted.shortcut),
                ),
                None => SaveView {
                    registered: Some(self.wanted.shortcut),
                    ..self
                }.after_shortcut(),
            },
            SaveStage::UndoNew => SaveView {
                registered: self.old_registered,
                ..self
            }.give_up(),
            SaveStage::Autostart => match failure {
                Some(reason) => SaveView {
                    message: "Не удалось изменить автозапуск: "@ + reason,
                    ..self
                }.undo_shortcut(),
                None => (self.at(SaveStage::Write), ActionView::WriteFile),
            },
            SaveStage::Write => match failure {
                Some(reason) => {
                    let failed = SaveView {
                        message: "Не удалось сохранить настройки: "@ + reason,
                        ..self
                    };
                    if self.autostart_changes() {
                        (
                            failed.at(SaveStage::UndoAutostart),
                            ActionView::SetAutostart(self.previous.autostart),
                        )
                    } else {
                        failed.undo_shortcut()
                    }
                },
                None => (self.at(SaveStage::Done), ActionView::Apply),
            },
            SaveStage::UndoAutostart => self.undo_shortcut(),
            SaveStage::UndoShortcut => match self.old_registered {
                Some(old) => (self.at(SaveStage::RestoreShortcut), ActionView::Register(old)),
                None => SaveView { registered: None, ..self }.give_up(),
            },
            SaveStage::RestoreShortcut => SaveView {
                registered: if failure is None {
                    self.old_registered
                } else {
                    None
                },
                ..self
            }.give_up(),
            SaveStage::Done => (self, ActionView::Apply),
            SaveStage::Failed => (self, ActionView::Fail(self.message)),
        }
    }

    /// The old shortcut is known where it is to be given up.
    pub open spec fn wf(self) -> bool {
        self.stage == SaveStage::UnregisterOld ==> self.old_registered is Some
    }
}

fn clone_text(value: &Option<String>) -> (copy: Option<String>)
    ensures
        text::text_of(copy) == text::text_of(*value),
{
    match value {
        Some(text) => Some(text.clone()),
        None => None,
    }
}

impl SaveSettings {
    /// Begins to save settings, if they are valid. `registered` is the shortcut that is registered now.
    pub fn begin(previous: Settings, wanted: Settings, registered: Option<String>) -> (begun: (
        Self,
        SaveAction,
    ))
        ensures
            begun.0@.wf(),
            (begun.0@, begun.1@) == (SaveView {
                previous: previous@,
                wanted: wanted@,
                old_registered: text::text_of(registered),
                registered: text::text_of(registered),
                stage: SaveStage::Write,
                message: Seq::empty(),
            }).begun(),
    {
        let old_registered = clone_text(&registered);
        let message = String::new();
        proof {
            assert(message@ =~= Seq::empty());
        }
        let mut save = SaveSettings {
            previous,
            wanted,
            old_registered,
            registered,
            stage: SaveStage::Write,
            message,
        };
        let valid = save.wanted.validate();
        let action = if let Err(error) = valid {
            save.message = error.message().to_owned();
            save.give_up()
        } else if save.shortcut_changes() {
            save.stage = SaveStage::RegisterNew;
            SaveAction::Register(save.wanted.shortcut.clone())
        } else {
            save.after_shortcut()
        };
        (save, action)
    }

    fn shortcut_changes(&self) -> (changes: bool)
        ensures
            changes == self@.shortcut_changes(),
    {
        !same_text(self.previous.shortcut.as_str(), self.wanted.shortcut.as_str())
    }

    fn after_shortcut(&mut self) -> (action: SaveAction)
        ensures
            (final(self)@, action@) == old(self)@.after_shortcut(),
    {
        if self.previous.autostart != self.wanted.autostart {
            self.stage = SaveStage::Autostart;
            SaveAction::SetAutostart(self.wanted.autostart)
        } else {
            self.stage = SaveStage::Write;
            SaveAction::WriteFile
        }
    }

    fn give_up(&mut self) -> (action: SaveAction)
        ensures
            (final(self)@, action@) == old(self)@.give_up(),
    {
        self.stage = SaveStage::Failed;
        SaveAction::Fail(self.message.clone())
    }

    fn undo_shortcut(&mut self) -> (action: SaveAction)
        ensures
            (final(self)@, action@) == old(self)@.undo_shortcut(),
    {
        if self.shortcut_changes() {
            self.stage = SaveStage::UndoShortcut;
            SaveAction::Unregister(self.wanted.shortcut.clone())
        } else {
            self.give_up()
        }
    }

    /// The shortcut that counts as registered.
    pub fn registered(&self) -> (registered: Option<String>)
        ensures
            text::text_of(registered) == self@.registered,
    {
        clone_text(&self.registered)
    }

    /// The step after one whose `failure` is given, if it has failed.
    pub fn step(&mut self, failure: Option<String>) -> (action: SaveAction)
        requires
            old(self)@.wf(),
        ensures
            (final(self)@, action@) == old(self)@.next(text::text_of(failure)),
            final(self)@.wf(),
    {
        match self.stage {
            SaveStage::RegisterNew => match failure {
                Some(reason) => {
                    let mut message = "Не удалось зарегистрировать горячую клавишу '".to_owned();
                    message.push_str(self.wanted.shortcut.as_str());
                    message.push_str("': ");
                    message.push_str(reason.as_str());
                    self.message = message;
                    self.give_up()
                },
                None => match &self.old_registered {
                    Some(old) => {
                        let action = SaveAction::Unregister(old.clone());
                        self.stage = SaveStage::UnregisterOld;
                        action
                    },
                    None => {
                        self.registered = Some(self.wanted.shortcut.clone());
                        self.after_shortcut()
                    },
                },
            },
            SaveStage::UnregisterOld => match failure {
                Some(reason) => {
                    let mut message = "Не удалось снять старую горячую клавишу '".to_owned();
                    match &self.old_registered {
                        Some(old) => message.push_str(old.as_str()),
                        None => {},
                    }
                    message.push_str("': ");
                    message.push_str(reason.as_str());
                    self.message = message;
                    self.stage = SaveStage::UndoNew;
                    SaveAction::Unregister(self.wanted.shortcut.clone())
                },
                None => {
                    self.registered = Some(self.wanted.shortcut.clone());
                    self.after_shortcut()
                },
            },
            SaveStage::UndoNew => {
                self.registered = clone_text(&self.old_registered);
                self.give_up()
            },
            SaveStage::Autostart => match failure {
                Some(reason) => {
                    let mut message = "Не удалось изменить автозапуск: ".to_owned();
                    message.push_str(reason.as_str());
                    self.message = message;
                    self.undo_shortcut()
                },
                None => {
                    self.stage = SaveStage::Write;
                    SaveAction::WriteFile
                },
            },
            SaveStage::Write => match failure {
                Some(reason) => {
                    let mut message = "Не удалось сохранить настройки: ".to_owned();
                    message.push_str(reason.as_str());
                    self.message = message;
                    if self.previous.autostart != self.wanted.autostart {
                        self.stage = SaveStage::UndoAutostart;
                        SaveAction::SetAutostart(self.previous.autostart)
                    } else {
                        self.undo_shortcut()
                    }
                },
                None => {
                    self.stage = SaveStage::Done;
                    SaveAction::Apply
                },
            },
            SaveStage::UndoAutostart => self.undo_shortcut(),
            SaveStage::UndoShortcut => match &self.old_registered {
                Some(old) => {
                    let action = SaveAction::Register(old.clone());
                    self.stage = SaveStage::RestoreShortcut;
                    action
                },
                None => {
                    self.registered = None;
                    self.give_up()
                },
            },
            SaveStage::RestoreShortcut => {
                self.registered = if failure.is_none() {
                    clone_text(&self.old_registered)
                } else {
                    None
                };
                self.give_up()
            },
            SaveStage::Done => SaveAction::Apply,
            SaveStage::Failed => SaveAction::Fail(self.message.clone()),
        }
    }
}

/// What the steps act on: the shortcuts that are registered, whether the application starts with
/// the session, and the settings file.
#[verifier::ext_equal]
pub struct DesktopView {
    pub shortcuts: Set<Seq<char>>,
    pub autostart: bool,
    pub stored: SettingsView,
}

impl DesktopView {
    /// After an action that has succeeded.
    pub open spec fn after(self, action: ActionView, wanted: SettingsView) -> DesktopView {
        match action {
            ActionView::Register(shortcut) => DesktopView {
                shortcuts: self.shortcuts.insert(shortcut),
                ..self
            },
            ActionView::Unregister(shortcut) => DesktopView {
                shortcuts: self.shortcuts.remove(shortcut),
                ..self
            },
            ActionView::SetAutostart(autostart) => DesktopView { autostart, ..self },
            ActionView::WriteFile => DesktopView { stored: wanted, ..self },
            _ => self,
        }
    }
}

impl SaveView {
    /// The desktop fits what is known when settings are saved: the shortcut that counts as
    /// registered is, the new one is not, and the rest is as in the previous settings.
    pub open spec fn fits(self, desktop: DesktopView) -> bool {
        &&& self.old_registered is Some ==> desktop.shortcuts.contains(self.old_registered->0)
        &&& self.shortcut_changes() ==> !desktop.shortcuts.contains(self.wanted.shortcut)
        &&& desktop.autostart == self.previous.autostart
        &&& desktop.stored == self.previous
    }

    /// With the new shortcut in place of the old one.
    pub open spec fn with_shortcut(self, desktop: DesktopView) -> DesktopView {
        let given_up = match self.old_registered {
            Some(old) => desktop.shortcuts.remove(old),
            None => desktop.shortcuts,
        };
        DesktopView {
            shortcuts: if self.shortcut_changes() {
                given_up.insert(self.wanted.shortcut)
            } else {
                desktop.shortcuts
            },
            ..desktop
        }
    }

    /// How the desktop has changed from `before` at each stage.
    pub open spec fn tracks(self, before: DesktopView, now: DesktopView) -> bool {
        let shortcut = self.with_shortcut(before);
        let autostart = DesktopView { autostart: self.wanted.autostart, ..shortcut };
        match self.stage {
            SaveStage::RegisterNew => self.shortcut_changes() && now == before
                && self.registered == self.old_registered,
            SaveStage::UnregisterOld => self.shortcut_changes() && self.old_registered is Some
                && now == before.after(
                ActionView::Register(self.wanted.shortcut),
                self.wanted,
            ) && self.registered == self.old_registered,
            SaveStage::UndoNew => self.shortcut_changes() && now == before.after(
                ActionView::Register(self.wanted.shortcut),
                self.wanted,
            ),
            SaveStage::Autostart => now == shortcut && self.registered == self.new_registered(),
            SaveStage::Write => now == autostart && self.registered == self.new_registered(),
            SaveStage::UndoAutostart => now == autostart,
            SaveStage::UndoShortcut => self.shortcut_changes() && now == shortcut,
            SaveStage::RestoreShortcut => self.shortcut_changes() && self.old_registered is Some
                && now == before.after(
                ActionView::Unregister(self.old_registered->0),
                self.wanted,
            ),
            SaveStage::Done => now == (DesktopView { stored: self.wanted, ..autostart })
                && self.registered == self.new_registered(),
            SaveStage::Failed => now == before && (self.shortcut_changes() ==> self.registered
                == self.old_registered),
        }
    }

    /// The shortcut that counts as registered once the new one has taken its place.
    pub open spec fn new_registered(self) -> Option<Seq<char>> {
        if self.shortcut_changes() {
            Some(self.wanted.shortcut)
        } else {
            self.old_registered
        }
    }

    /// A step that undoes an earlier one.
    pub open spec fn undoing(self) -> bool {
        self.stage == SaveStage::UndoNew || self.stage == SaveStage::UndoAutostart || self.stage
            == SaveStage::UndoShortcut || self.stage == SaveStage::RestoreShortcut
    }
}

/// In the beginning the desktop is as it was.
pub proof fn saving_begins_with_nothing_changed(save: SaveView, desktop: DesktopView)
    requires
        save.fits(desktop),
        save.registered == save.old_registered,
    ensures
        save.begun().0.tracks(desktop, desktop),
{
    assert(save.with_shortcut(desktop) =~= desktop || save.shortcut_changes());
}

/// Settings that are not valid are refused with nothing changed, whatever is reported back.
pub proof fn invalid_settings_are_refused(save: SaveView, failure: Option<Seq<char>>)
    requires
        !save.wanted.valid(),
    ensures
        save.begun().1 == ActionView::Fail(SettingsError::RetentionOutOfRange.text()),
        save.begun().0.next(failure) == save.begun(),
        save.begun().0.registered == save.registered,
{
}

/// Every step that succeeds, and every step that fails without having undone anything, leaves
/// the desktop as the next stage says; so saving ends either with everything in force or, if what
/// had to be undone was undone, with everything as it was.
pub proof fn failed_saving_changes_nothing(
    save: SaveView,
    action: ActionView,
    before: DesktopView,
    now: DesktopView,
    failure: Option<Seq<char>>,
)
    requires
        save.fits(before),
        save.wf(),
        save.tracks(before, now),
        action == save.pending(),
        failure is Some ==> !save.undoing(),
    ensures
        save.next(failure).0.tracks(
            before,
            if failure is None {
                now.after(action, save.wanted)
            } else {
                now
            },
        ),
        save.next(failure).1 == save.next(failure).0.pending(),
{
    let after = if failure is None {
        now.after(action, save.wanted)
    } else {
        now
    };
    let shortcut = save.with_shortcut(before);
    match save.stage {
        SaveStage::RegisterNew => {
            if save.old_registered is None && failure is None {
                assert(after =~= shortcut);
                assert(DesktopView { autostart: save.wanted.autostart, ..shortcut } =~= after
                    || save.autostart_changes());
            }
        },
        SaveStage::UnregisterOld => {
            if failure is None {
                if save.old_registered != Some(save.wanted.shortcut) {
                    assert(after.shortcuts =~= shortcut.shortcuts);
                }
                assert(after =~= shortcut);
            }
        },
        SaveStage::UndoNew => {
            assert(after.shortcuts =~= before.shortcuts);
        },
        SaveStage::UndoAutostart => {
            assert(after =~= shortcut);
            if !save.shortcut_changes() {
                assert(after =~= before);
            }
        },
        SaveStage::Autostart => {
            if failure is Some && !save.shortcut_changes() {
                assert(after =~= before);
            }
        },
        SaveStage::Write => {
            if failure is Some && !save.autostart_changes() {
                assert(after =~= shortcut);
                if !save.shortcut_changes() {
                    assert(after =~= before);
                }
            }
        },
        SaveStage::UndoShortcut => {
            if save.old_registered is Some {
                assert(after.shortcuts =~= before.shortcuts.remove(save.old_registered->0));
            } else {
                assert(after.shortcuts =~= before.shortcuts);
            }
        },
        SaveStage::RestoreShortcut => {
            assert(after.shortcuts =~= before.shortcuts);
        },
        _ => {},
    }
}

impl SaveView {
    /// The action whose outcome is awaited.
    pub open spec fn pending(self) -> ActionView {
        match self.stage {
            SaveStage::RegisterNew => ActionView::Register(self.wanted.shortcut),
            SaveStage::UnregisterOld => ActionView::Unregister(self.old_registered->0),
            SaveStage::UndoNew => ActionView::Unregister(self.wanted.shortcut),
            SaveStage::Autostart => ActionView::SetAutostart(self.wanted.autostart),
            SaveStage::Write => ActionView::WriteFile,
            SaveStage::UndoAutostart => ActionView::SetAutostart(self.previous.autostart),
            SaveStage::UndoShortcut => ActionView::Unregister(self.wanted.shortcut),
            SaveStage::RestoreShortcut => ActionView::Register(self.old_registered->0),
            SaveStage::Done => ActionView::Apply,
            SaveStage::Failed => ActionView::Fail(self.message),
        }
    }
}

} // verus!
