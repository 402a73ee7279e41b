use quick_resume::command::{
    check_executable, flag_value, parse_command, restore_executable, snapshot_path, target_name,
    Command, UsageError,
};
use quick_resume::snapshot::writer::payload_at;
use quick_resume::util::error::QuickResumeError;

fn args(list: &[&str]) -> Vec<String> {
    let mut all = vec![String::from("quick_resume.exe")];
    all.extend(list.iter().map(|s| s.to_string()));
    all
}

#[test]
fn flag_value_stands_behind_the_flag() {
    let a = args(&["--snapshot", "--target", "a.exe", "--target", "b.exe", "--out"]);
    assert_eq!(flag_value(&a, "--target"), Some(String::from("a.exe")));
    assert_eq!(flag_value(&a, "a.exe"), Some(String::from("--target")));
    assert_eq!(flag_value(&a, "--out"), None);
    assert_eq!(flag_value(&a, "--exe"), None);
    assert_eq!(flag_value(&[], "--exe"), None);
}

#[test]
fn defaults_are_as_documented() {
    let none = args(&["--snapshot"]);
    assert_eq!(snapshot_path(&none), "snapshot/mini_metro.qrs");
    assert_eq!(target_name(&none), "Mini Metro.exe");
    let out = args(&["--peek", "--out", "x.qrs"]);
    assert_eq!(snapshot_path(&out), "x.qrs");
}

#[test]
fn profile_and_snapshot_take_a_target() {
    match parse_command(&args(&["--profile", "--target", "g.exe"])) {
        Ok(Command::Profile { target }) => assert_eq!(target, "g.exe"),
        other => panic!("{:?}", other),
    }
    match parse_command(&args(&["--snapshot"])) {
        Ok(Command::Snapshot { target, out }) => {
            assert_eq!(target, "Mini Metro.exe");
            assert_eq!(out, "snapshot/mini_metro.qrs");
        }
        other => panic!("{:?}", other),
    }
}

#[test]
fn restore_takes_an_executable() {
    match parse_command(&args(&["--restore", "--exe", "C:\\g.exe", "--out", "g.qrs"])) {
        Ok(Command::Restore { exe, out }) => {
            assert_eq!(exe, Some(String::from("C:\\g.exe")));
            assert_eq!(out, "g.qrs");
        }
        other => panic!("{:?}", other),
    }
    match parse_command(&args(&["--restore"])) {
        Ok(Command::Restore { exe: None, .. }) => {}
        other => panic!("{:?}", other),
    }
}

#[test]
fn aslr_commands_need_a_path() {
    match parse_command(&args(&["--disable-aslr", "g.exe"])) {
        Ok(Command::DisableAslr { path }) => assert_eq!(path, "g.exe"),
        other => panic!("{:?}", other),
    }
    match parse_command(&args(&["--restore-aslr", "g.exe", "extra"])) {
        Ok(Command::RestoreAslr { path }) => assert_eq!(path, "g.exe"),
        other => panic!("{:?}", other),
    }
    assert_eq!(
        parse_command(&args(&["--disable-aslr"])).unwrap_err(),
        UsageError::DisableAslrWithoutPath
    );
    assert_eq!(
        parse_command(&args(&["--restore-aslr"])).unwrap_err(),
        UsageError::RestoreAslrWithoutPath
    );
}

#[test]
fn peek_takes_a_snapshot() {
    match parse_command(&args(&["--peek", "--out", "p.qrs"])) {
        Ok(Command::Peek { out }) => assert_eq!(out, "p.qrs"),
        other => panic!("{:?}", other),
    }
}

#[test]
fn anything_else_is_a_usage_error() {
    assert_eq!(parse_command(&[]).unwrap_err(), UsageError::NoCommand);
    assert_eq!(parse_command(&args(&[])).unwrap_err(), UsageError::NoCommand);
    assert_eq!(parse_command(&args(&["--Profile"])).unwrap_err(), UsageError::NoCommand);
    assert_eq!(parse_command(&args(&["x", "--peek"])).unwrap_err(), UsageError::NoCommand);
}

#[test]
fn executable_defaults_to_the_one_of_the_snapshot() {
    let payload = payload_at(None, "g.exe", 1, false, vec![], vec![]);
    assert_eq!(restore_executable(None, &payload), "g.exe");
    assert_eq!(restore_executable(Some(String::from("h.exe")), &payload), "h.exe");
}

#[test]
fn a_missing_executable_is_refused() {
    assert!(check_executable("g.exe", true).is_ok());
    match check_executable("g.exe", false) {
        Err(QuickResumeError::Other(text)) => assert_eq!(
            text,
            "Executable not found: g.exe\nProvide --exe <full path> to the game."
        ),
        other => panic!("{:?}", other),
    }
}
