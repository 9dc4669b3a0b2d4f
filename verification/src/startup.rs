//! How the program is started, and how it registers itself to be started with the
//! user's session.
use crate::text::{le_bytes, reg_sz_bytes, utf16};
use vstd::prelude::*;

verus! {

/// The registry key, below the current user's, of programs to run at logon.
pub const RUN_KEY: &'static str = "Software\\Microsoft\\Windows\\CurrentVersion\\Run";

/// The name of the value under that key, of the window class, and the title of
/// every notice.
pub const PROGRAM_NAME: &'static str = "BrightnessCtrl";

/// The title of the panel's window.
pub const WINDOW_TITLE: &'static str = "Monitor Brightness";

/// What the program is started for.
#[derive(Clone, Copy, Debug, PartialEq, Eq, Structural)]
pub enum Launch {
    Install,
    Uninstall,
    /// Show the panel.
    Panel,
}

/// What the program is started for, by its first argument.
pub fn launch_mode(arg: Option<&str>) -> (launch: Launch)
    ensures
        launch == match arg {
            Some(a) => if a@ == "--install"@ {
                Launch::Install
            } else if a@ == "--uninstall"@ {
                Launch::Uninstall
            } else {
                Launch::Panel
            },
            None => Launch::Panel,
        },
{
    match arg {
        Some(a) => {
            let a: String = a.to_owned();
            if a == "--install".to_owned() {
                Launch::Install
            } else if a == "--uninstall".to_owned() {
                Launch::Uninstall
            } else {
                Launch::Panel
            }
        },
        None => Launch::Panel,
    }
}

/// What the user is told at the end.
#[derive(Clone, Copy, Debug, PartialEq, Eq, Structural)]
pub enum Notice {
    NoExePath,
    NoKey,
    Added,
    WriteFailed,
    Removed,
    NotFound,
}

impl Notice {
    /// The text of the notice.
    pub open spec fn wording(self) -> Seq<char> {
        match self {
            Notice::NoExePath => "Could not get executable path."@,
            Notice::NoKey => "Could not open registry key."@,
            Notice::Added => "Added to startup.\r\nPress Alt+B to show/hide the window."@,
            Notice::WriteFailed => "Failed to write registry value."@,
            Notice::Removed => "Removed from startup."@,
            Notice::NotFound => "Not found in startup (may not have been installed)."@,
        }
    }

    /// The text of the notice.
    pub fn text(self) -> (text: &'static str)
        ensures
            text@ == self.wording(),
    {
        match self {
            Notice::NoExePath => "Could not get executable path.",
            Notice::NoKey => "Could not open registry key.",
            Notice::Added => "Added to startup.\r\nPress Alt+B to show/hide the window.",
            Notice::WriteFailed => "Failed to write registry value.",
            Notice::Removed => "Removed from startup.",
            Notice::NotFound => "Not found in startup (may not have been installed).",
        }
    }

    /// Whether the notice tells of a failure.
    pub fn is_error(self) -> (error: bool)
        ensures
            error == !(self is Added || self is Removed),
    {
        match self {
            Notice::Added => false,
            Notice::Removed => false,
            _ => true,
        }
    }
}

/// What is done next to register the program, or to take it off again.
#[derive(Debug, PartialEq, Eq)]
pub enum Registration {
    /// Find out where the executable is.
    ReadPath,
    /// Open the key, in order to write a value, or else to delete it.
    OpenKey(Option<Vec<u8>>),
    WriteValue(Vec<u8>),
    DeleteValue,
    /// Close the key.
    CloseKey(Notice),
    /// Tell the user.
    Show(Notice),
    Done,
}

/// What a [`Registration`] holds.
pub ghost enum RegistrationView {
    ReadPath,
    OpenKey(Option<Seq<u8>>),
    WriteValue(Seq<u8>),
    DeleteValue,
    CloseKey(Notice),
    Show(Notice),
    Done,
}

impl View for Registration {
    type V = RegistrationView;

    open spec fn view(&self) -> RegistrationView {
        match *self {
            Registration::ReadPath => RegistrationView::ReadPath,
            Registration::OpenKey(Some(value)) => RegistrationView::OpenKey(Some(value@)),
            Registration::OpenKey(None) => RegistrationView::OpenKey(None),
            Registration::WriteValue(value) => RegistrationView::WriteValue(value@),
            Registration::DeleteValue => RegistrationView::DeleteValue,
            Registration::CloseKey(notice) => RegistrationView::CloseKey(notice),
            Registration::Show(notice) => RegistrationView::Show(notice),
            Registration::Done => RegistrationView::Done,
        }
    }
}

/// What came of the last thing done.
#[derive(Debug, PartialEq, Eq)]
pub enum Outcome {
    /// Where the executable is, if that could be found out.
    Path(Option<String>),
    /// What the registry returned: 0 for success.
    Status(u32),
    /// It has been done.
    Finished,
}

/// What an [`Outcome`] holds.
pub ghost enum OutcomeView {
    Path(Option<Seq<char>>),
    Status(u32),
    Finished,
}

impl View for Outcome {
    type V = OutcomeView;

    open spec fn view(&self) -> OutcomeView {
        match *self {
            Outcome::Path(Some(path)) => OutcomeView::Path(Some(path@)),
            Outcome::Path(None) => OutcomeView::Path(None),
            Outcome::Status(status) => OutcomeView::Status(status),
            Outcome::Finished => OutcomeView::Finished,
        }
    }
}

impl RegistrationView {
    /// Whether this is the kind of outcome that the thing to do has.
    pub open spec fn expects(self, outcome: OutcomeView) -> bool {
        match self {
            RegistrationView::ReadPath => outcome is Path,
            RegistrationView::OpenKey(_) => outcome is Status,
            RegistrationView::WriteValue(_) => outcome is Status,
            RegistrationView::DeleteValue => outcome is Status,
            RegistrationView::CloseKey(_) => outcome is Finished,
            RegistrationView::Show(_) => outcome is Finished,
            RegistrationView::Done => false,
        }
    }

    /// What follows.
    pub open spec fn after(self, outcome: OutcomeView) -> RegistrationView {
        let ok = outcome == OutcomeView::Status(0);
        match self {
            RegistrationView::ReadPath => match outcome {
                OutcomeView::Path(Some(path)) => RegistrationView::OpenKey(
                    Some(le_bytes(utf16(path).push(0))),
                ),
                _ => RegistrationView::Show(Notice::NoExePath),
            },
            RegistrationView::OpenKey(value) => if !ok {
                RegistrationView::Show(Notice::NoKey)
            } else {
                match value {
                    Some(bytes) => RegistrationView::WriteValue(bytes),
                    None => RegistrationView::DeleteValue,
                }
            },
            RegistrationView::WriteValue(_) => RegistrationView::CloseKey(
                if ok {
                    Notice::Added
                } else {
                    Notice::WriteFailed
                },
            ),
            RegistrationView::DeleteValue => RegistrationView::CloseKey(
                if ok {
                    Notice::Removed
                } else {
                    Notice::NotFound
                },
            ),
            RegistrationView::CloseKey(notice) => RegistrationView::Show(notice),
            RegistrationView::Show(_) => RegistrationView::Done,
            RegistrationView::Done => RegistrationView::Done,
        }
    }
}

/// Registers the program: its path is found out first.
pub fn install() -> (first: Registration)
    ensures
        first@ == RegistrationView::ReadPath,
{
    Registration::ReadPath
}

/// Takes the program off again: the key is opened first.
pub fn uninstall() -> (first: Registration)
    ensures
        first@ == RegistrationView::OpenKey(None),
{
    Registration::OpenKey(None)
}

impl Registration {
    /// What follows.
    pub fn next(self, outcome: Outcome) -> (next: Registration)
        requires
            self@.expects(outcome@),
        ensures
            next@ == self@.after(outcome@),
    {
        let ok: bool = match outcome {
            Outcome::Status(status) => status == 0,
            _ => false,
        };
        match self {
            Registration::ReadPath => match outcome {
                Outcome::Path(Some(path)) => Registration::OpenKey(
                    Some(reg_sz_bytes(path.as_str())),
                ),
                _ => Registration::Show(Notice::NoExePath),
            },
            Registration::OpenKey(value) => {
                if !ok {
                    Registration::Show(Notice::NoKey)
                } else {
                    match value {
                        Some(bytes) => Registration::WriteValue(bytes),
                        None => Registration::DeleteValue,
                    }
                }
            },
            Registration::WriteValue(_) => Registration::CloseKey(
                if ok {
                    Notice::Added
                } else {
                    Notice::WriteFailed
                },
            ),
            Registration::DeleteValue => Registration::CloseKey(
                if ok {
                    Notice::Removed
                } else {
                    Notice::NotFound
                },
            ),
            Registration::CloseKey(notice) => Registration::Show(notice),
            Registration::Show(_) => Registration::Done,
            Registration::Done => Registration::Done,
        }
    }
}

/// Installing: with a path and a key that opens, the path is written as a registry
/// string, the key is closed whatever came of that, and the user is told; without
/// either, nothing is written and the user is told why.
pub proof fn law_install(path: Seq<char>, opened: u32, written: u32)
    ensures
        ({
            let start = RegistrationView::ReadPath;
            let open = start.after(OutcomeView::Path(Some(path)));
            let write = open.after(OutcomeView::Status(opened));
            let close = write.after(OutcomeView::Status(written));
            let show = close.after(OutcomeView::Finished);
            let notice = if written == 0 {
                Notice::Added
            } else {
                Notice::WriteFailed
            };
            &&& start.after(OutcomeView::Path(None)) == RegistrationView::Show(Notice::NoExePath)
            &&& open is OpenKey
            &&& opened != 0 ==> write == RegistrationView::Show(Notice::NoKey)
            &&& opened == 0 ==> {
                &&& write == RegistrationView::WriteValue(le_bytes(utf16(path).push(0)))
                &&& close == RegistrationView::CloseKey(notice)
                &&& show == RegistrationView::Show(notice)
                &&& show.after(OutcomeView::Finished) == RegistrationView::Done
            }
        }),
{
}

/// Uninstalling: with a key that opens, the value is deleted, the key is closed
/// whatever came of that, and the user is told; otherwise the user is told why.
pub proof fn law_uninstall(opened: u32, deleted: u32)
    ensures
        ({
            let open = RegistrationView::OpenKey(None);
            let delete = open.after(OutcomeView::Status(opened));
            let close = delete.after(OutcomeView::Status(deleted));
            let show = close.after(OutcomeView::Finished);
            let notice = if deleted == 0 {
                Notice::Removed
            } else {
                Notice::NotFound
            };
            &&& opened != 0 ==> delete == RegistrationView::Show(Notice::NoKey)
            &&& opened == 0 ==> {
                &&& delete == RegistrationView::DeleteValue
                &&& close == RegistrationView::CloseKey(notice)
                &&& show == RegistrationView::Show(notice)
                &&& show.after(OutcomeView::Finished) == RegistrationView::Done
            }
        }),
{
}

/// How many things are done at most before a registration is done.
pub open spec fn steps_left(r: RegistrationView) -> nat {
    match r {
        RegistrationView::ReadPath => 5,
        RegistrationView::OpenKey(_) => 4,
        RegistrationView::WriteValue(_) => 3,
        RegistrationView::DeleteValue => 3,
        RegistrationView::CloseKey(_) => 2,
        RegistrationView::Show(_) => 1,
        RegistrationView::Done => 0,
    }
}

/// Every registration comes to an end, whatever comes of the things done; the last
/// of them is to tell the user, once; and a key that was opened is closed before
/// that.
pub proof fn law_registration_ends(r: RegistrationView, outcome: OutcomeView)
    requires
        r.expects(outcome),
    ensures
        steps_left(r.after(outcome)) < steps_left(r),
        r.after(outcome) is Done <==> r is Show,
        r is WriteValue || r is DeleteValue ==> r.after(outcome) is CloseKey,
        r is CloseKey ==> r.after(outcome) == RegistrationView::Show(r->CloseKey_0),
{
}

/// The values under a registry key, by name.
pub type Values = Map<Seq<char>, Seq<u8>>;

impl RegistrationView {
    /// The values under the key after a thing has been done, with its outcome. Only
    /// writing and deleting concern them, and only where that succeeds.
    pub open spec fn effect(self, outcome: OutcomeView, values: Values) -> Values {
        if outcome != OutcomeView::Status(0) {
            values
        } else {
            match self {
                RegistrationView::WriteValue(bytes) => values.insert(PROGRAM_NAME@, bytes),
                RegistrationView::DeleteValue => values.remove(PROGRAM_NAME@),
                _ => values,
            }
        }
    }

    /// Where a registration is after a course of outcomes.
    pub open spec fn after_all(self, outcomes: Seq<OutcomeView>) -> RegistrationView
        decreases outcomes.len(),
    {
        if outcomes.len() == 0 {
            self
        } else {
            self.after_all(outcomes.drop_last()).after(outcomes.last())
        }
    }

    /// The values under the key after a course of outcomes.
    pub open spec fn effect_of_all(self, outcomes: Seq<OutcomeView>, values: Values) -> Values
        decreases outcomes.len(),
    {
        if outcomes.len() == 0 {
            values
        } else {
            let before = outcomes.drop_last();
            self.after_all(before).effect(
                outcomes.last(),
                self.effect_of_all(before, values),
            )
        }
    }
}

/// The outcomes of installing from a path, by what the registry returned.
pub open spec fn install_outcomes(path: Seq<char>, opened: u32, written: u32) -> Seq<OutcomeView> {
    seq![OutcomeView::Path(Some(path))] + uninstall_outcomes(opened, written)
}

/// The outcomes of uninstalling, by what the registry returned.
pub open spec fn uninstall_outcomes(opened: u32, deleted: u32) -> Seq<OutcomeView> {
    if opened == 0 {
        seq![
            OutcomeView::Status(opened),
            OutcomeView::Status(deleted),
            OutcomeView::Finished,
            OutcomeView::Finished,
        ]
    } else {
        seq![OutcomeView::Status(opened), OutcomeView::Finished]
    }
}

/// The values under the key after installing.
pub open spec fn installed(path: Seq<char>, opened: u32, written: u32, values: Values) -> Values {
    RegistrationView::ReadPath.effect_of_all(install_outcomes(path, opened, written), values)
}

/// The values under the key after uninstalling.
pub open spec fn uninstalled(opened: u32, deleted: u32, values: Values) -> Values {
    RegistrationView::OpenKey(None).effect_of_all(uninstall_outcomes(opened, deleted), values)
}

/// The values under the key after installing from each of the paths in turn, all
/// with success.
pub open spec fn installed_from_all(paths: Seq<Seq<char>>, values: Values) -> Values
    decreases paths.len(),
{
    if paths.len() == 0 {
        values
    } else {
        installed(paths.last(), 0, 0, installed_from_all(paths.drop_last(), values))
    }
}

/// Installing leaves the program's path as a registry string under its name, and
/// every other value alone; where a registry call fails, or the path is not known, it
/// changes nothing.
pub proof fn law_install_effect(path: Seq<char>, opened: u32, written: u32, values: Values)
    ensures
        RegistrationView::ReadPath.after_all(install_outcomes(path, opened, written))
            == RegistrationView::Done,
        installed(path, opened, written, values) == if opened == 0 && written == 0 {
            values.insert(PROGRAM_NAME@, le_bytes(utf16(path).push(0)))
        } else {
            values
        },
        RegistrationView::ReadPath.effect_of_all(
            seq![OutcomeView::Path(None), OutcomeView::Finished],
            values,
        ) == values,
{
    let all = install_outcomes(path, opened, written);
    let open = seq![OutcomeView::Path(Some(path))];
    let write = open.push(OutcomeView::Status(opened));
    reveal_with_fuel(RegistrationView::after_all, 6);
    reveal_with_fuel(RegistrationView::effect_of_all, 6);
    assert(open.drop_last() =~= Seq::empty());
    assert(write.drop_last() =~= open);
    if opened == 0 {
        let close = write.push(OutcomeView::Status(written));
        let show = close.push(OutcomeView::Finished);
        assert(close.drop_last() =~= write);
        assert(show.drop_last() =~= close);
        assert(all =~= show.push(OutcomeView::Finished));
        assert(all.drop_last() =~= show);
    } else {
        assert(all =~= write.push(OutcomeView::Finished));
        assert(all.drop_last() =~= write);
    }
}

/// Uninstalling removes the value under the program's name, and leaves every other
/// value alone; where a registry call fails, it changes nothing.
pub proof fn law_uninstall_effect(opened: u32, deleted: u32, values: Values)
    ensures
        RegistrationView::OpenKey(None).after_all(uninstall_outcomes(opened, deleted))
            == RegistrationView::Done,
        uninstalled(opened, deleted, values) == if opened == 0 && deleted == 0 {
            values.remove(PROGRAM_NAME@)
        } else {
            values
        },
{
    let all = uninstall_outcomes(opened, deleted);
    let open = seq![OutcomeView::Status(opened)];
    reveal_with_fuel(RegistrationView::after_all, 5);
    reveal_with_fuel(RegistrationView::effect_of_all, 5);
    assert(open.drop_last() =~= Seq::empty());
    if opened == 0 {
        let delete = open.push(OutcomeView::Status(deleted));
        let close = delete.push(OutcomeView::Finished);
        assert(delete.drop_last() =~= open);
        assert(close.drop_last() =~= delete);
        assert(all =~= close.push(OutcomeView::Finished));
        assert(all.drop_last() =~= close);
    } else {
        assert(all =~= open.push(OutcomeView::Finished));
        assert(all.drop_last() =~= open);
    }
}

/// Uninstalling undoes installing, however often that was done: where the program's
/// name was not in use, the values under the key are those from before, and where
/// it was, they are those without it.
pub proof fn law_uninstall_undoes_install(paths: Seq<Seq<char>>, values: Values)
    ensures
        uninstalled(0, 0, installed_from_all(paths, values)) == values.remove(PROGRAM_NAME@),
        !values.contains_key(PROGRAM_NAME@) ==> uninstalled(
            0,
            0,
            installed_from_all(paths, values),
        ) == values,
    decreases paths.len(),
{
    let after = installed_from_all(paths, values);
    law_uninstall_effect(0, 0, after);
    if paths.len() > 0 {
        let before = installed_from_all(paths.drop_last(), values);
        law_uninstall_undoes_install(paths.drop_last(), values);
        law_install_effect(paths.last(), 0, 0, before);
        law_uninstall_effect(0, 0, before);
        assert(after.remove(PROGRAM_NAME@) =~= before.remove(PROGRAM_NAME@));
    }
    if !values.contains_key(PROGRAM_NAME@) {
        assert(values.remove(PROGRAM_NAME@) =~= values);
    }
}

/// Uninstalling once more, which the registry refuses for want of the value, changes
/// nothing and tells the user that the program was not found.
pub proof fn law_further_uninstall(deleted: u32, values: Values)
    requires
        deleted != 0,
    ensures
        uninstalled(0, deleted, values) == values,
        RegistrationView::OpenKey(None).after_all(uninstall_outcomes(0, deleted).take(3))
            == RegistrationView::Show(Notice::NotFound),
{
    law_uninstall_effect(0, deleted, values);
    let all = uninstall_outcomes(0, deleted);
    reveal_with_fuel(RegistrationView::after_all, 4);
    assert(all.take(3).drop_last() =~= all.take(2));
    assert(all.take(2).drop_last() =~= all.take(1));
    assert(all.take(1).drop_last() =~= Seq::empty());
}

/// No registration, whatever comes of the things done, touches a value under
/// another name than the program's.
pub proof fn law_other_values_untouched(
    first: RegistrationView,
    outcomes: Seq<OutcomeView>,
    values: Values,
    name: Seq<char>,
)
    requires
        name != PROGRAM_NAME@,
    ensures
        ({
            let after = first.effect_of_all(outcomes, values);
            &&& after.contains_key(name) == values.contains_key(name)
            &&& after.contains_key(name) ==> after[name] == values[name]
        }),
    decreases outcomes.len(),
{
    if outcomes.len() > 0 {
        law_other_values_untouched(first, outcomes.drop_last(), values, name);
    }
}

/// The views hold what the values hold.
pub proof fn law_registration_view(value: Vec<u8>, path: String, status: u32, notice: Notice)
    ensures
        (Registration::ReadPath)@ == RegistrationView::ReadPath,
        (Registration::OpenKey(Some(value)))@ == RegistrationView::OpenKey(Some(value@)),
        (Registration::OpenKey(None))@ == RegistrationView::OpenKey(None),
        (Registration::WriteValue(value))@ == RegistrationView::WriteValue(value@),
        (Registration::DeleteValue)@ == RegistrationView::DeleteValue,
        (Registration::CloseKey(notice))@ == RegistrationView::CloseKey(notice),
        (Registration::Show(notice))@ == RegistrationView::Show(notice),
        (Registration::Done)@ == RegistrationView::Done,
        (Outcome::Path(Some(path)))@ == OutcomeView::Path(Some(path@)),
        (Outcome::Path(None))@ == OutcomeView::Path(None),
        (Outcome::Status(status))@ == OutcomeView::Status(status),
        (Outcome::Finished)@ == OutcomeView::Finished,
{
}

/// Any value that is to be written, once the key is open, is the one written, and
/// only status 0 counts as success.
pub proof fn law_only_zero_succeeds(value: Seq<u8>, status: u32)
    ensures
        ({
            let outcome = OutcomeView::Status(status);
            let open = RegistrationView::OpenKey(Some(value)).after(outcome);
            let delete = RegistrationView::OpenKey(None).after(outcome);
            let written = RegistrationView::WriteValue(value).after(outcome);
            let deleted = RegistrationView::DeleteValue.after(outcome);
            if status == 0 {
                &&& open == RegistrationView::WriteValue(value)
                &&& delete == RegistrationView::DeleteValue
                &&& written == RegistrationView::CloseKey(Notice::Added)
                &&& deleted == RegistrationView::CloseKey(Notice::Removed)
            } else {
                &&& open == RegistrationView::Show(Notice::NoKey)
                &&& delete == RegistrationView::Show(Notice::NoKey)
                &&& written == RegistrationView::CloseKey(Notice::WriteFailed)
                &&& deleted == RegistrationView::CloseKey(Notice::NotFound)
            }
        }),
{
}

} // verus!
