//! Settings, and the window in which the history is shown.

use crate::commands::save_settings::{ActionView, SaveStage, SaveView};
use crate::popup_state::{PopupAction, PopupEvent, PopupState, PopupView};
use crate::settings;
use crate::settings::{SettingsError, SettingsFile, SettingsView};
use crate::text;
use vstd::prelude::*;

verus! {

/// Settings are valid exactly if clips are kept for one day to ten years.
pub proof fn clips_are_kept_for_ten_years_at_most(settings: SettingsView)
    ensures
        settings.valid() <==> 1 <= settings.retention_days <= 3650,
{
}

/// What is set before the user sets anything.
pub proof fn defaults_are_these(settings: SettingsView)
    requires
        settings == SettingsView::default_settings(),
    ensures
        !settings.paused,
        settings.autostart,
        settings.shortcut == "Super+V"@,
        settings.retention_days == 90,
        settings.excluded_apps.len() == 0,
{
}

/// A file gives settings exactly if its text denotes settings that are valid, and then it gives
/// those.
pub proof fn valid_files_are_used(file: SettingsFile)
    ensures
        match file {
            SettingsFile::Present { parsed: Some(parsed), .. } => if 1 <= parsed.retention_days
                <= 3650 {
                file.usable() == Some(parsed@)
            } else {
                file.usable() is None
            },
            _ => file.usable() is None,
        },
{
}

/// The configuration lies where the user says, else below the home directory.
pub proof fn configuration_lies_at_home(config: Seq<char>, home: Seq<char>, other: Option<Seq<char>>)
    requires
        home.len() > 0,
        home.last() != '/',
    ensures
        settings::config_directory(Some(config), other) == Some(config),
        settings::config_directory(None, Some(home)) == Some(home + "/.config"@),
        settings::config_directory(None, None) is None,
{
    reveal_strlit(".config");
    reveal_strlit("/.config");
    assert(home.push('/') + ".config"@ =~= home + "/.config"@);
}

/// The entry that keeps the application from being started hides itself; the one that starts it
/// names the program and asks for the background.
pub proof fn entries_say_whether_to_start(exe: Seq<char>)
    ensures
        text::contains_text(settings::DISABLED_ENTRY@, "Hidden=true"@),
        text::contains_text(settings::enabled_entry(exe), exe + " --background\n"@),
{
    reveal_strlit("[Desktop Entry]\nType=Application\nName=KitsuPin\nHidden=true\n");
    reveal_strlit("Hidden=true");
    let entry = settings::DISABLED_ENTRY@;
    assert(entry.subrange(47, 58) =~= "Hidden=true"@);
    assert(text::stands_at(entry, "Hidden=true"@, 47));
    let head =
        "[Desktop Entry]\nType=Application\nName=KitsuPin\nComment=История буфера обмена\nExec="@;
    let tail =
        " --background\nTerminal=false\nX-GNOME-Autostart-enabled=true\nOnlyShowIn=KDE;\n"@;
    reveal_strlit(
        " --background\nTerminal=false\nX-GNOME-Autostart-enabled=true\nOnlyShowIn=KDE;\n",
    );
    reveal_strlit(" --background\n");
    let shown = exe + " --background\n"@;
    let whole = settings::enabled_entry(exe);
    assert(tail.subrange(0, 14) =~= " --background\n"@);
    assert(whole.subrange(head.len() as int, (head.len() + shown.len()) as int) =~= shown);
    assert(text::stands_at(whole, shown, head.len() as int));
}

/// Saving begins with the shortcut if it changes, else with autostart if that changes, else with
/// the file; settings that are not valid are refused.
pub proof fn saving_begins_with_what_changes(save: SaveView)
    ensures
        save.begun().1 == if !(1 <= save.wanted.retention_days <= 3650) {
            ActionView::Fail(SettingsError::RetentionOutOfRange.text())
        } else if save.previous.shortcut != save.wanted.shortcut {
            ActionView::Register(save.wanted.shortcut)
        } else if save.previous.autostart != save.wanted.autostart {
            ActionView::SetAutostart(save.wanted.autostart)
        } else {
            ActionView::WriteFile
        },
        save.begun().0.wanted == save.wanted,
        save.begun().0.previous == save.previous,
{
}

/// So many steps on, if none fails.
pub open spec fn after_steps(save: SaveView, steps: nat) -> SaveView
    decreases steps,
{
    if steps == 0 {
        save
    } else {
        after_steps(save.next(None).0, (steps - 1) as nat)
    }
}

/// Saving valid settings ends with them in force, if no step fails, and the new shortcut counts as
/// registered.
pub proof fn undisturbed_saving_succeeds(save: SaveView)
    requires
        1 <= save.wanted.retention_days <= 3650,
    ensures
        ({
            let done = after_steps(save.begun().0, 4);
            &&& done.stage == SaveStage::Done
            &&& done.next(None).1 == ActionView::Apply
            &&& save.previous.shortcut != save.wanted.shortcut ==> done.registered == Some(
                save.wanted.shortcut,
            )
            &&& save.previous.shortcut == save.wanted.shortcut ==> done.registered
                == save.registered
        }),
{
    reveal_with_fuel(after_steps, 5);
}

/// Settings are put in force only once the file is written, and a step that fails is never the
/// last before that.
pub proof fn settings_are_applied_once_written(save: SaveView, failure: Option<Seq<char>>)
    requires
        save.stage != SaveStage::Done,
    ensures
        save.next(failure).1 == ActionView::Apply <==> save.stage == SaveStage::Write
            && failure is None,
        save.next(failure).0.wanted == save.wanted,
        save.next(failure).0.previous == save.previous,
        save.next(failure).0.old_registered == save.old_registered,
{
}

/// Where a step fails, the user is told which and why.
pub proof fn failures_are_reported(save: SaveView, reason: Seq<char>)
    ensures
        save.stage == SaveStage::RegisterNew ==> save.next(Some(reason)).1 == ActionView::Fail(
            "Не удалось зарегистрировать горячую клавишу '"@ + save.wanted.shortcut + "': "@
                + reason,
        ),
        save.stage == SaveStage::UnregisterOld ==> save.next(Some(reason)).0.message
            == "Не удалось снять старую горячую клавишу '"@ + save.old_registered->0 + "': "@
            + reason,
        save.stage == SaveStage::Autostart ==> save.next(Some(reason)).0.message
            == "Не удалось изменить автозапуск: "@ + reason,
        save.stage == SaveStage::Write ==> save.next(Some(reason)).0.message
            == "Не удалось сохранить настройки: "@ + reason,
        save.undoing() ==> save.next(Some(reason)).0.message == save.message,
        save.stage == SaveStage::Failed ==> save.next(Some(reason)).1 == ActionView::Fail(
            save.message,
        ),
{
}

/// A hidden window is opened by a toggle, with the next number and one attempt to get the focus,
/// and by nothing else.
pub proof fn hidden_windows_are_opened_by_toggling(popup: PopupView, event: PopupEvent)
    requires
        popup.state == PopupState::Hidden,
    ensures
        ({
            let (next, action) = popup.step(event);
            if event is ToggleRequested {
                &&& next.state == PopupState::Opening {
                    generation: popup.next_generation,
                    attempts: 1,
                    focused_once: false,
                }
                &&& action == PopupAction::ShowAndRequestFocus { generation: popup.next_generation }
                &&& popup.next_generation < u64::MAX ==> next.next_generation
                    == popup.next_generation + 1
                &&& popup.next_generation == u64::MAX ==> next.next_generation == 0
            } else {
                next == popup && action == PopupAction::NoAction
            }
        }),
{
}

/// A window that is opening is focused by gaining the focus or by a check that finds it focused;
/// a check that does not asks again while attempts are left; a loss of focus does not count; a
/// toggle or a request hides it.
pub proof fn opening_windows_wait_for_the_focus(
    popup: PopupView,
    event: PopupEvent,
    generation: u64,
    attempts: u32,
)
    requires
        popup.state == (PopupState::Opening { generation, attempts, focused_once: false }),
    ensures
        ({
            let (next, action) = popup.step(event);
            let focused = event is FocusGained || event == (PopupEvent::FocusCheckResult {
                generation,
                is_focused: true,
            });
            let unfocused = event == (PopupEvent::FocusCheckResult {
                generation,
                is_focused: false,
            });
            &&& next.next_generation == popup.next_generation
            &&& next.max_attempts == popup.max_attempts
            &&& if focused {
                &&& next.state == PopupState::VisibleAndFocused { generation }
                &&& action == PopupAction::NotifyFrontendFocused { generation }
            } else if event is ToggleRequested || event is HideRequested {
                &&& next.state == PopupState::Hidden
                &&& action == PopupAction::HideWindow
            } else if unfocused && attempts < popup.max_attempts {
                &&& next.state == PopupState::Opening {
                    generation,
                    attempts: (attempts + 1) as u32,
                    focused_once: false,
                }
                &&& action == PopupAction::RetryFocus { generation, attempt: (attempts + 1) as u32 }
            } else {
                &&& next.state == popup.state
                &&& action == PopupAction::NoAction
            }
        }),
{
}

/// A window that has had the focus is hidden by losing it, by a toggle or by a request, and by
/// nothing else.
pub proof fn focused_windows_are_hidden_by_losing_it(popup: PopupView, event: PopupEvent)
    requires
        popup.state is VisibleAndFocused,
    ensures
        ({
            let (next, action) = popup.step(event);
            &&& next.next_generation == popup.next_generation
            &&& if event is FocusLost || event is ToggleRequested || event is HideRequested {
                next.state == PopupState::Hidden && action == PopupAction::HideWindow
            } else {
                next == popup && action == PopupAction::NoAction
            }
        }),
{
}

} // verus!
