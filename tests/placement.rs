use mcp_config::mutator::{failure, outcome, start, step, Action, Change, Event, Stage};
use mcp_config::paths::{backup_path_for, check_claude_config_exists, decimal_text, get_claude_config_path, get_wsl_config_path, Platform};
use mcp_config::registry::{claude_list_projects, get_projects_from_config, lex_less};
use mcp_config::json::{Field, Json};
use mcp_config::scope::{is_global_config, is_linux_path, is_windows_global, is_wsl_global};
use mcp_config::store::ErrorKind;

fn strings(v: &[&str]) -> Vec<String> {
    v.iter().map(|s| s.to_string()).collect()
}

fn native() -> Option<String> {
    Some("C:\\Users\\u\\.tool.json".to_string())
}

fn nested() -> Option<String> {
    Some("\\\\wsl$\\Ubuntu\\home\\u\\.tool.json".to_string())
}

#[test]
fn posix_project_goes_to_nested_document() {
    let p = get_claude_config_path("/home/u/proj", Platform::NativeWithNested, native(), true, nested());
    assert_eq!(p.ok(), nested());
    let listed = claude_list_projects(
        true,
        &strings(&["/home/u/proj", "C:\\w"]),
        true,
        &strings(&["/srv/app", "/home/u/proj"]),
    );
    assert_eq!(listed, strings(&["Global (Windows)", "Global (WSL)", "/home/u/proj", "/srv/app", "C:\\w"]));
    assert_eq!(listed.iter().filter(|s| s.as_str() == "/home/u/proj").count(), 1);
}

#[test]
fn posix_project_falls_back_to_native() {
    let p = get_claude_config_path("/home/u/proj", Platform::NativeWithNested, native(), false, None);
    assert_eq!(p.ok(), native());
}

#[test]
fn windows_project_goes_to_native_document() {
    let p = get_claude_config_path("C:\\work", Platform::NativeWithNested, native(), false, nested());
    assert_eq!(p.ok(), native());
}

#[test]
fn native_only_platform_uses_native_document() {
    let p = get_claude_config_path("/home/u/proj", Platform::NativeOnly, native(), false, nested());
    assert_eq!(p.ok(), native());
    let e = get_claude_config_path("Global (WSL)", Platform::NativeOnly, native(), true, nested()).err().unwrap();
    assert_eq!(e.kind, ErrorKind::NestedEnvironmentUnavailable);
    assert_eq!(e.message, "WSL is only available on Windows");
}

#[test]
fn nested_global_needs_a_nested_document() {
    let e = get_claude_config_path("Global (WSL)", Platform::NativeWithNested, native(), true, None).err().unwrap();
    assert_eq!(e.kind, ErrorKind::NestedEnvironmentUnavailable);
    let p = get_claude_config_path("Global (WSL)", Platform::NativeWithNested, native(), true, nested());
    assert_eq!(p.ok(), nested());
}

#[test]
fn legacy_global_prefers_existing_native() {
    assert_eq!(get_claude_config_path("Global", Platform::NativeWithNested, native(), true, nested()).ok(), native());
    assert_eq!(get_claude_config_path("Global", Platform::NativeWithNested, native(), false, nested()).ok(), nested());
    assert_eq!(get_claude_config_path("Global", Platform::NativeWithNested, native(), false, None).ok(), native());
    assert_eq!(get_claude_config_path("", Platform::NativeOnly, native(), false, nested()).ok(), native());
}

#[test]
fn missing_home_is_reported() {
    let e = get_claude_config_path("Global (Windows)", Platform::NativeOnly, None, false, None).err().unwrap();
    assert_eq!(e.kind, ErrorKind::HomeDirectoryUnavailable);
    assert_eq!(e.message, "Unable to find home directory");
}

#[test]
fn scope_list_without_nested_document() {
    let listed = claude_list_projects(true, &strings(&["/b", "/a", "/b"]), false, &strings(&["/z"]));
    assert_eq!(listed, strings(&["Global (Windows)", "/a", "/b"]));
    let none = claude_list_projects(false, &Vec::new(), false, &Vec::new());
    assert!(none.is_empty());
}

#[test]
fn project_keys_of_a_document() {
    let doc = Json::Object(vec![Field {
        key: "projects".to_string(),
        value: Json::Object(vec![
            Field { key: "/x".to_string(), value: Json::Null },
            Field { key: "/y".to_string(), value: Json::Null },
        ]),
    }]);
    assert_eq!(get_projects_from_config(&doc), strings(&["/x", "/y"]));
    assert!(get_projects_from_config(&Json::Null).is_empty());
}

#[test]
fn lexicographic_order() {
    assert!(lex_less("/a", "/b"));
    assert!(lex_less("/a", "/ab"));
    assert!(!lex_less("/ab", "/a"));
    assert!(!lex_less("/a", "/a"));
    assert!(lex_less("", "a"));
}

#[test]
fn scope_names() {
    assert!(is_global_config("Global"));
    assert!(is_global_config("Global (Windows)"));
    assert!(is_global_config("Global (WSL)"));
    assert!(!is_global_config("/Global"));
    assert!(is_windows_global("Global (Windows)"));
    assert!(!is_windows_global("Global"));
    assert!(is_wsl_global("Global (WSL)"));
    assert!(is_linux_path("/home"));
    assert!(!is_linux_path("C:\\home"));
    assert!(!is_linux_path(""));
}

#[test]
fn backup_names() {
    assert_eq!(backup_path_for("/h/.tool.json", 1700000000), "/h/.tool.json.backup.1700000000");
    assert_eq!(decimal_text(0), "0");
    assert_eq!(decimal_text(u64::MAX), "18446744073709551615");
}

fn run(events: Vec<Event>) -> (Change, Vec<Action>) {
    let mut change = start();
    let mut actions = Vec::new();
    for e in events {
        let (next, action) = step(change, e);
        change = next;
        actions.push(action);
    }
    (change, actions)
}

#[test]
fn failed_write_restores_backup() {
    let (change, actions) = run(vec![
        Event::Begin(true),
        Event::BackupTaken(None),
        Event::Prepared(None),
        Event::Written(Some("disk full".to_string())),
        Event::Restored(true),
        Event::BackupRemoved,
    ]);
    assert_eq!(
        actions,
        vec![Action::TakeBackup, Action::Prepare, Action::Write, Action::RestoreBackup, Action::RemoveBackup, Action::Finish]
    );
    assert_eq!(change.stage, Stage::Finished);
    assert!(!change.backup_taken);
    let e = outcome(change).err().unwrap();
    assert_eq!(e.kind, ErrorKind::WriteFailed);
    assert_eq!(e.message, "Failed to write config: disk full");
}

#[test]
fn failed_restore_keeps_backup() {
    let (change, actions) = run(vec![
        Event::Begin(true),
        Event::BackupTaken(None),
        Event::Prepared(None),
        Event::Written(Some("denied".to_string())),
        Event::Restored(false),
    ]);
    assert_eq!(actions.last(), Some(&Action::Finish));
    assert!(change.backup_taken);
    assert_eq!(outcome(change).err().unwrap().kind, ErrorKind::WriteFailed);
}

#[test]
fn clean_change_removes_backup() {
    let (change, actions) = run(vec![
        Event::Begin(true),
        Event::BackupTaken(None),
        Event::Prepared(None),
        Event::Written(None),
        Event::BackupRemoved,
    ]);
    assert_eq!(actions[3], Action::RemoveBackup);
    assert!(outcome(change).is_ok());
}

#[test]
fn new_document_takes_no_backup() {
    let (change, actions) = run(vec![Event::Begin(false), Event::Prepared(None), Event::Written(Some("x".to_string()))]);
    assert_eq!(actions, vec![Action::Prepare, Action::Write, Action::Finish]);
    assert_eq!(outcome(change).err().unwrap().kind, ErrorKind::WriteFailed);
}

#[test]
fn read_failure_removes_backup() {
    let (change, actions) = run(vec![
        Event::Begin(true),
        Event::BackupTaken(None),
        Event::Prepared(Some((ErrorKind::MalformedDocument, "bad".to_string()))),
        Event::BackupRemoved,
    ]);
    assert_eq!(actions[2], Action::RemoveBackup);
    let e = outcome(change).err().unwrap();
    assert_eq!(e.kind, ErrorKind::MalformedDocument);
    assert_eq!(e.message, "Failed to parse config: bad");
}

#[test]
fn failed_backup_aborts() {
    let (change, actions) = run(vec![Event::Begin(true), Event::BackupTaken(Some("no space".to_string()))]);
    assert_eq!(actions, vec![Action::TakeBackup, Action::Finish]);
    let e = outcome(change).err().unwrap();
    assert_eq!(e.kind, ErrorKind::BackupFailed);
    assert_eq!(e.message, "Failed to create backup: no space");
}

#[test]
fn failure_messages() {
    assert_eq!(failure(ErrorKind::Unreadable, "x").message, "Failed to read config: x");
    assert_eq!(failure(ErrorKind::MalformedDocument, "y").message, "Failed to parse config: y");
    assert_eq!(failure(ErrorKind::BackupFailed, "z").kind, ErrorKind::BackupFailed);
    assert_eq!(failure(ErrorKind::BackupFailed, "z").message, "Failed to create backup: z");
}

#[test]
fn config_presence() {
    assert!(check_claude_config_exists(Platform::NativeOnly, true, false));
    assert!(!check_claude_config_exists(Platform::NativeOnly, false, true));
    assert!(check_claude_config_exists(Platform::NativeWithNested, false, true));
    assert_eq!(get_wsl_config_path(Platform::NativeOnly, nested()), None);
    assert_eq!(get_wsl_config_path(Platform::NativeWithNested, nested()), nested());
}
