use sourcetrait_backup::command::{CommandLine, CommandOutput};
use sourcetrait_backup::cross::error::{CmdKind, CrossError, ErrIo, ErrNotFound};
use sourcetrait_backup::cross::platform::{
    cmd_which, editor_from_env, optional_utf8_from, run_best_editor, EditorLookup, EnvLookup,
    MacOsCrossPlatform, UnsupportedCrossPlatform, WindowsCrossPlatform,
};

#[test]
fn which_command() {
    let c = cmd_which("vim");
    assert_eq!("which", c.program);
    assert_eq!(vec!["vim"], c.args);
}

#[test]
fn command_output_as_text() {
    let out = CommandOutput { success: true, stdout: b"  /usr/bin/vim\n".to_vec(), stderr: vec![] };
    assert_eq!(Some("/usr/bin/vim".to_string()), optional_utf8_from(CmdKind::Which, out).unwrap());
    let out = CommandOutput { success: true, stdout: b" \n".to_vec(), stderr: vec![] };
    assert_eq!(None, optional_utf8_from(CmdKind::Which, out).unwrap());
    let out = CommandOutput { success: true, stdout: vec![0xff, 0xfe], stderr: vec![] };
    assert!(matches!(optional_utf8_from(CmdKind::Which, out), Err(CrossError::CmdChecked { .. })));
    let out = CommandOutput { success: false, stdout: vec![], stderr: vec![] };
    assert!(matches!(optional_utf8_from(CmdKind::Which, out), Err(CrossError::Cmd { .. })));
}

#[test]
fn editor_choice_order() {
    let open = CommandLine { program: "open".to_string(), args: vec![], current_dir: None };
    let c = run_best_editor("f.toml", Some(open), Some("/usr/bin/nano".to_string()), &vec![]).unwrap();
    assert_eq!("open", c.program);
    assert_eq!(vec!["f.toml"], c.args);
    let c = run_best_editor("f.toml", None, Some("/usr/bin/nano".to_string()), &vec![]).unwrap();
    assert_eq!("/usr/bin/nano", c.program);
    let guesses = vec![None, Some("/bin/nvim".to_string()), Some("/bin/vim".to_string())];
    let c = run_best_editor("f.toml", None, None, &guesses).unwrap();
    assert_eq!("/bin/nvim", c.program);
    assert!(matches!(
        run_best_editor("f.toml", None, None, &vec![None, None]),
        Err(CrossError::NotFound { kind: ErrNotFound::Editor })
    ));
}

#[test]
fn editor_from_environment() {
    assert!(matches!(editor_from_env("/usr/bin/vi", Some("/usr/bin/vim".to_string())), EditorLookup::Use(p) if p == "/usr/bin/vim"));
    assert!(matches!(editor_from_env("vi", Some("/x".to_string())), EditorLookup::Which(v) if v == "vi"));
    assert!(matches!(editor_from_env("/usr/bin/vi", None), EditorLookup::Which(_)));
}

#[test]
fn platforms() {
    assert_eq!(true, MacOsCrossPlatform.in_terminal(&EnvLookup::Present("x".to_string())).unwrap());
    assert_eq!(false, MacOsCrossPlatform.in_terminal(&EnvLookup::NotPresent).unwrap());
    assert!(MacOsCrossPlatform.in_terminal(&EnvLookup::NotUnicode("bad".to_string())).is_err());
    assert!(UnsupportedCrossPlatform.in_terminal().is_err());
    assert!(UnsupportedCrossPlatform.sanitize_path("/x").is_err());
    assert_eq!("C:\\x", WindowsCrossPlatform.sanitize_path("\\\\?\\C:\\x").unwrap());
    assert_eq!("/x", MacOsCrossPlatform.sanitize_path("/x").unwrap());
    assert_eq!("open", MacOsCrossPlatform.cmd_open("/f").program);
}

#[test]
fn error_kinds() {
    assert!(matches!(ErrIo::copy_file("/a", "/b"), ErrIo::CopyFile(a, b) if a == "/a" && b == "/b"));
    assert_eq!("NotFound", CrossError::not_found(ErrNotFound::Which).to_string());
    assert_eq!("Unsupported", CrossError::err_unsupported::<()>().unwrap_err().to_string());
}

#[test]
fn platform_errors_convert() {
    let e: sourcetrait_backup::bak::error::Error = CrossError::Unsupported.into();
    assert_eq!("Unsupported", e.to_string());
    let e: sourcetrait_backup::backup::error::Error = CrossError::not_found(ErrNotFound::Editor).into();
    assert_eq!("Cross", e.to_string());
}
