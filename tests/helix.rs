use felis::helix::{helix_open_steps, open_in_helix, without_newlines, EditorStep};
use felis::paths::AbsolutePath;
use felis::server::Failure;
use felis::terminal::{OsWindow, Process, Tab, Window};

fn process(pid: u32, cwd: &str, cmdline: &[&str]) -> Process {
    Process {
        pid,
        cwd: Some(cwd.to_string()),
        cmdline: cmdline.iter().map(|s| s.to_string()).collect(),
    }
}

fn ls_output() -> Vec<OsWindow> {
    vec![OsWindow {
        id: 1,
        is_active: true,
        is_focused: true,
        tabs: vec![Tab {
            id: 1,
            is_active: true,
            is_focused: true,
            windows: vec![
                Window {
                    id: 1,
                    is_active: false,
                    is_focused: false,
                    foreground_processes: vec![
                        process(38646, "/path/to/felis", &["/nix/store/rust-analyzer-unwrapped/bin/rust-analyzer"]),
                        process(38411, "/path/to/felis", &["/etc/profiles/per-user/gaborpihaj/bin/hx"]),
                    ],
                },
                Window {
                    id: 2,
                    is_active: true,
                    is_focused: true,
                    foreground_processes: vec![process(49915, "/path/to/felis", &["kitten", "@", "ls"])],
                },
            ],
        }],
    }]
}

fn typing_steps(window: u32, rel: &str) -> Vec<EditorStep> {
    vec![
        EditorStep::Focus(window),
        EditorStep::SendText(window, r"\E".to_string()),
        EditorStep::SendText(window, ":".to_string()),
        EditorStep::SendText(window, rel.to_string()),
        EditorStep::SendText(window, r"\x01open \r".to_string()),
    ]
}

fn path() -> AbsolutePath {
    AbsolutePath::new("/path/to/felis/src/lib.rs").unwrap()
}

#[test]
fn test_open_in_helix_with_kitty_tab_id() {
    let steps = open_in_helix(&path(), Some(1), &ls_output(), false).unwrap();
    assert_eq!(steps, typing_steps(1, "src/lib.rs"));
}

#[test]
fn command_test_open_in_helix_turns_absolute_path_to_relative() {
    let steps = open_in_helix(&path(), Some(1), &ls_output(), false).unwrap();
    assert_eq!(steps[3], EditorStep::SendText(1, "src/lib.rs".to_string()));
}

#[test]
fn test_open_in_helix_without_kitty_tab_id() {
    let steps = open_in_helix(&path(), None, &ls_output(), false).unwrap();
    assert_eq!(steps, typing_steps(1, "src/lib.rs"));
}

#[test]
fn command_test_open_in_helix_without_kitty_tab_id_command_resolves_relative_path() {
    let steps = open_in_helix(&path(), None, &ls_output(), false).unwrap();
    assert_eq!(steps[0], EditorStep::Focus(1));
    assert_eq!(steps[3], EditorStep::SendText(1, "src/lib.rs".to_string()));
}

#[test]
fn plugin_mode_leaves_the_path_in_a_file() {
    let steps = open_in_helix(&path(), Some(1), &ls_output(), true).unwrap();
    assert_eq!(
        steps,
        vec![
            EditorStep::WriteOpenFile("src/lib.rs".to_string()),
            EditorStep::Focus(1),
            EditorStep::SendText(1, r"\E".to_string()),
            EditorStep::SendText(1, r":felis-open\r".to_string()),
        ]
    );
}

#[test]
fn unknown_window_or_workspace_fails() {
    assert_eq!(open_in_helix(&path(), Some(7), &ls_output(), false), Err(Failure::WindowNotFound));
    let elsewhere = AbsolutePath::new("/elsewhere/f.txt").unwrap();
    assert_eq!(open_in_helix(&elsewhere, None, &ls_output(), false), Err(Failure::WorkspaceNotFound));
    assert_eq!(
        open_in_helix(&elsewhere, Some(2), &ls_output(), false),
        Err(Failure::OutsideWorkingDirectory)
    );
}

#[test]
fn copied_path_loses_newlines_and_surrounding_space() {
    assert_eq!(without_newlines("src/\nlib.rs\n"), "src/lib.rs");
    assert_eq!(without_newlines("ü\n\n"), "ü");
    let p = AbsolutePath::new("/path/to/felis/src/l\nib.rs ").unwrap();
    let steps = open_in_helix(&p, Some(1), &ls_output(), false).unwrap();
    assert_eq!(steps[3], EditorStep::SendText(1, "src/lib.rs".to_string()));
    assert_eq!(helix_open_steps(3, "a", false), typing_steps(3, "a"));
}
