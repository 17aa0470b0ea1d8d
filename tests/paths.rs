use felis::paths::{AbsolutePath, Context, Environment, PathError};
use felis::terminal::{window_cwd, OsWindow, Process, Tab, Window};

fn window(id: u32, active: bool, cwd: Option<&str>) -> Window {
    Window {
        id,
        is_active: active,
        is_focused: active,
        foreground_processes: vec![Process {
            pid: 100 + id,
            cwd: cwd.map(|c| c.to_string()),
            cmdline: vec!["-zsh".to_string()],
        }],
    }
}

fn ls_output() -> Vec<OsWindow> {
    vec![OsWindow {
        id: 1,
        is_active: true,
        is_focused: true,
        tabs: vec![Tab {
            id: 1,
            is_active: true,
            is_focused: true,
            windows: vec![
                window(1, false, Some("/elsewhere")),
                window(2, true, Some("/path/to/felis")),
            ],
        }],
    }]
}

#[test]
fn test_absolute_path_resolve_should_return_path_if_absolute_in_shell_env() {
    let result =
        AbsolutePath::resolve("/path/to/file.txt", &Environment::Shell(String::new())).unwrap();
    assert_eq!(result.as_str(), "/path/to/file.txt");
}

#[test]
fn test_absolute_path_resolve_should_return_path_if_absolute_in_kitty_env() {
    let result =
        AbsolutePath::resolve("/path/to/file.txt", &Environment::Kitty(Vec::new())).unwrap();
    assert_eq!(result.as_str(), "/path/to/file.txt");
}

#[test]
fn test_absolute_path_resolve_should_return_path_based_on_cwd_in_shell_env() {
    let result = AbsolutePath::resolve(
        "file.txt",
        &Environment::Shell("/path/to/work_dir/".to_string()),
    )
    .unwrap();
    assert_eq!(result.as_str(), "/path/to/work_dir/file.txt");
}

#[test]
fn test_absolute_path_resolve_should_return_path_based_on_cwd_of_active_focused_window_in_kitty_env(
) {
    let result = AbsolutePath::resolve("file.txt", &Environment::Kitty(ls_output())).unwrap();
    assert_eq!(result.as_str(), "/path/to/felis/file.txt");
}

#[test]
fn relative_path_without_focused_window_fails() {
    let mut windows = ls_output();
    windows[0].is_focused = false;
    assert_eq!(
        AbsolutePath::resolve("file.txt", &Environment::Kitty(windows)),
        Err(PathError::NoFocusedWindow)
    );
}

#[test]
fn relative_path_without_known_cwd_fails() {
    let mut windows = ls_output();
    windows[0].tabs[0].windows[1].foreground_processes[0].cwd = None;
    assert_eq!(
        AbsolutePath::resolve("file.txt", &Environment::Kitty(windows)),
        Err(PathError::NoWorkingDirectory)
    );
}

#[test]
fn only_absolute_paths_are_accepted_as_is() {
    assert_eq!(AbsolutePath::new("/a/b").unwrap().as_str(), "/a/b");
    assert_eq!(AbsolutePath::new("a/b"), Err(PathError::NotAbsolute));
}

#[test]
fn window_cwd_is_that_of_the_first_process() {
    let w = window(5, true, Some("/x"));
    assert_eq!(window_cwd(&w).map(|s| s.as_str()), Some("/x"));
    let empty = Window { id: 6, is_active: true, is_focused: true, foreground_processes: Vec::new() };
    assert_eq!(window_cwd(&empty), None);
}

#[test]
fn context_names() {
    assert_eq!(Context::Shell.as_str(), "shell");
    assert_eq!(Context::Terminal.as_str(), "terminal");
}

#[test]
fn joining_follows_the_separator_rules() {
    let shell = |cwd: &str| Environment::Shell(cwd.to_string());
    assert_eq!(AbsolutePath::resolve("f", &shell("/a")).unwrap().as_str(), "/a/f");
    assert_eq!(AbsolutePath::resolve("f", &shell("/a/")).unwrap().as_str(), "/a/f");
    assert_eq!(AbsolutePath::resolve("f", &shell("")).unwrap().as_str(), "f");
    assert_eq!(AbsolutePath::new(""), Err(PathError::NotAbsolute));
}
