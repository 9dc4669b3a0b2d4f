use std::collections::BTreeMap;

use brightness_ctrl::startup::{
    install, launch_mode, uninstall, Launch, Notice, Outcome, Registration, PROGRAM_NAME, RUN_KEY, WINDOW_TITLE,
};

#[test]
fn launch_by_first_argument() {
    assert_eq!(launch_mode(Some("--install")), Launch::Install);
    assert_eq!(launch_mode(Some("--uninstall")), Launch::Uninstall);
    assert_eq!(launch_mode(Some("--Install")), Launch::Panel);
    assert_eq!(launch_mode(Some("")), Launch::Panel);
    assert_eq!(launch_mode(None), Launch::Panel);
}

#[test]
fn installing() {
    let bytes = vec![0x61, 0, 0, 0];
    let r = install();
    assert_eq!(r, Registration::ReadPath);
    let r = r.next(Outcome::Path(Some("a".to_string())));
    assert_eq!(r, Registration::OpenKey(Some(bytes.clone())));
    let r = r.next(Outcome::Status(0));
    assert_eq!(r, Registration::WriteValue(bytes));
    let r = r.next(Outcome::Status(0));
    assert_eq!(r, Registration::CloseKey(Notice::Added));
    let r = r.next(Outcome::Finished);
    assert_eq!(r, Registration::Show(Notice::Added));
    assert_eq!(r.next(Outcome::Finished), Registration::Done);
}

#[test]
fn installing_without_a_path() {
    assert_eq!(install().next(Outcome::Path(None)), Registration::Show(Notice::NoExePath));
}

#[test]
fn installing_without_a_key() {
    let r = install().next(Outcome::Path(Some(String::new())));
    assert_eq!(r.next(Outcome::Status(5)), Registration::Show(Notice::NoKey));
}

#[test]
fn failing_to_write_still_closes_the_key() {
    let r = Registration::WriteValue(vec![0, 0]).next(Outcome::Status(5));
    assert_eq!(r, Registration::CloseKey(Notice::WriteFailed));
    assert_eq!(r.next(Outcome::Finished), Registration::Show(Notice::WriteFailed));
}

#[test]
fn uninstalling() {
    let r = uninstall();
    assert_eq!(r, Registration::OpenKey(None));
    let r = r.next(Outcome::Status(0));
    assert_eq!(r, Registration::DeleteValue);
    let r = r.next(Outcome::Status(0));
    assert_eq!(r, Registration::CloseKey(Notice::Removed));
    let r = r.next(Outcome::Finished);
    assert_eq!(r, Registration::Show(Notice::Removed));
    assert_eq!(r.next(Outcome::Finished), Registration::Done);
}

#[test]
fn uninstalling_what_is_not_installed() {
    assert_eq!(uninstall().next(Outcome::Status(2)), Registration::Show(Notice::NoKey));
    assert_eq!(
        Registration::DeleteValue.next(Outcome::Status(2)),
        Registration::CloseKey(Notice::NotFound)
    );
}

#[test]
fn notices() {
    let all = [
        (Notice::NoExePath, "Could not get executable path.", true),
        (Notice::NoKey, "Could not open registry key.", true),
        (Notice::Added, "Added to startup.\r\nPress Alt+B to show/hide the window.", false),
        (Notice::WriteFailed, "Failed to write registry value.", true),
        (Notice::Removed, "Removed from startup.", false),
        (Notice::NotFound, "Not found in startup (may not have been installed).", true),
    ];
    for (notice, text, error) in all {
        assert_eq!(notice.text(), text);
        assert_eq!(notice.is_error(), error);
    }
}

#[test]
fn names() {
    assert_eq!(RUN_KEY, "Software\\Microsoft\\Windows\\CurrentVersion\\Run");
    assert_eq!(PROGRAM_NAME, "BrightnessCtrl");
    assert_eq!(WINDOW_TITLE, "Monitor Brightness");
}

/// Carries a registration out on a key whose calls succeed, but for deleting what
/// is not there, and gives the notice that was shown.
fn carry_out(first: Registration, path: &str, key: &mut BTreeMap<String, Vec<u8>>) -> Notice {
    let mut step = first;
    let mut shown = None;
    loop {
        let outcome = match &step {
            Registration::ReadPath => Outcome::Path(Some(path.to_string())),
            Registration::OpenKey(_) => Outcome::Status(0),
            Registration::WriteValue(bytes) => {
                key.insert(PROGRAM_NAME.to_string(), bytes.clone());
                Outcome::Status(0)
            }
            Registration::DeleteValue => match key.remove(PROGRAM_NAME) {
                Some(_) => Outcome::Status(0),
                None => Outcome::Status(2),
            },
            Registration::CloseKey(_) => Outcome::Finished,
            Registration::Show(notice) => {
                assert_eq!(shown, None);
                shown = Some(*notice);
                Outcome::Finished
            }
            Registration::Done => return shown.unwrap(),
        };
        step = step.next(outcome);
    }
}

#[test]
fn uninstalling_undoes_installing() {
    let mut key = BTreeMap::new();
    key.insert("Other".to_string(), vec![1, 2, 3]);
    let before = key.clone();
    assert_eq!(carry_out(install(), "a", &mut key), Notice::Added);
    assert_eq!(carry_out(install(), "b", &mut key), Notice::Added);
    assert_eq!(key.get(PROGRAM_NAME), Some(&vec![0x62, 0, 0, 0]));
    assert_eq!(key.get("Other"), before.get("Other"));
    assert_eq!(carry_out(uninstall(), "", &mut key), Notice::Removed);
    assert_eq!(key, before);
    assert_eq!(carry_out(uninstall(), "", &mut key), Notice::NotFound);
    assert_eq!(key, before);
}
