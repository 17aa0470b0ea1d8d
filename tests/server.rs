use felis::envelope::{Command, Echo, Flag, OpenInHelix, Response};
use felis::executor::{ExecError, Output};
use felis::server::{kitty_focus_window_cmd, kitty_send_text_cmd, Action, Failure, Server};
use felis::stub::{listen, ReaderWriterStub, StubListener};
use felis::terminal::{find_window_by_id, find_workspace, focused_active_window, OsWindow, Process, Tab, Window};
use felis::wire::{WireRead, WireReadError, WireWrite};

fn encode<T: WireWrite>(v: &T) -> Vec<u8> {
    let mut buf = Vec::new();
    v.write(&mut buf);
    buf
}

fn process(pid: u32, cwd: &str, cmdline: &[&str]) -> Process {
    Process {
        pid,
        cwd: Some(cwd.to_string()),
        cmdline: cmdline.iter().map(|s| s.to_string()).collect(),
    }
}

fn ls_output() -> Vec<OsWindow> {
    vec![OsWindow {
        id: 1,
        is_active: true,
        is_focused: true,
        tabs: vec![Tab {
            id: 1,
            is_active: true,
            is_focused: true,
            windows: vec![
                Window {
                    id: 1,
                    is_active: false,
                    is_focused: false,
                    foreground_processes: vec![
                        process(40339, "/path/to/felis", &["/nix/store/rust-default/libexec/rust-analyzer-proc-macro-srv"]),
                        process(38646, "/path/to/felis", &["/nix/store/rust-analyzer-unwrapped/bin/rust-analyzer"]),
                        process(38411, "/path/to/felis", &["/etc/profiles/per-user/gaborpihaj/bin/hx"]),
                    ],
                },
                Window {
                    id: 2,
                    is_active: true,
                    is_focused: true,
                    foreground_processes: vec![process(49915, "/path/to/felis", &["kitten", "@", "ls"])],
                },
                Window {
                    id: 3,
                    is_active: false,
                    is_focused: false,
                    foreground_processes: vec![process(983, "/path/to/felis", &["-zsh"])],
                },
            ],
        }],
    }]
}

fn serve(requests: Vec<Vec<u8>>) -> StubListener {
    let conns = requests.into_iter().map(ReaderWriterStub::new).collect();
    let mut listener = StubListener::new(conns);
    listen(&mut listener, &ls_output());
    listener
}

fn response_of(listener: &StubListener, i: usize) -> Response {
    let written = listener.served()[i].written();
    let (resp, used) = Response::read(written, 0).unwrap();
    assert_eq!(used, written.len());
    resp
}

#[test]
fn test_shutdown_command() {
    let listener = serve(vec![encode(&Command::Shutdown)]);
    assert_eq!(listener.accepted(), 1);
    assert_eq!(response_of(&listener, 0), Response::Ack);
}

#[test]
fn shutdown_ends_the_loop_before_further_connections() {
    let echo = encode(&Command::Echo(Echo { message: "late".to_string() }));
    let listener = serve(vec![encode(&Command::Shutdown), echo.clone()]);
    assert_eq!(listener.accepted(), 1);
    assert_eq!(listener.remaining().len(), 1);
    assert_eq!(listener.remaining()[0].to_read(), echo.as_slice());
}

#[test]
fn test_echo_command() {
    let message = "test message".to_string();
    let listener = serve(vec![
        encode(&Command::Echo(Echo { message: message.clone() })),
        encode(&Command::Shutdown),
    ]);
    assert_eq!(listener.accepted(), 2);
    assert_eq!(
        listener.served()[0].written(),
        &encode(&Response::Message(message.clone()))
    );
    assert_eq!(response_of(&listener, 0), Response::Message(message));
    assert_eq!(response_of(&listener, 1), Response::Ack);
}

#[test]
fn echo_scenario() {
    let listener = serve(vec![encode(&Command::Echo(Echo { message: "hello".to_string() }))]);
    assert_eq!(listener.accepted(), 1);
    assert_eq!(
        listener.served()[0].written(),
        &encode(&Response::Message("hello".to_string()))
    );
    assert_eq!(response_of(&listener, 0), Response::Message("hello".to_string()));
}

#[test]
fn malformed_ordinal_closes_without_response() {
    let listener = serve(vec![9999u64.to_be_bytes().to_vec(), encode(&Command::Shutdown)]);
    assert_eq!(listener.accepted(), 2);
    assert!(listener.served()[0].written().is_empty());
    assert_eq!(response_of(&listener, 1), Response::Ack);

    let mut server = Server::new();
    server.accepted();
    assert_eq!(
        server.request_read(&9999u64.to_be_bytes()),
        Action::Close(Failure::Malformed(WireReadError::InvalidOrdinal(9999)))
    );
    assert_eq!(server.connection_done(), Action::Accept);
}

#[test]
fn connections_run_out_without_shutdown() {
    let listener = serve(vec![encode(&Command::Echo(Echo { message: "a".to_string() })), vec![1, 2]]);
    assert_eq!(listener.accepted(), 2);
    assert!(listener.served()[1].written().is_empty());
}

#[test]
fn test_get_active_focused_window_command() {
    let listener = serve(vec![encode(&Command::GetActiveFocusedWindow)]);
    assert_eq!(response_of(&listener, 0), Response::WindowId(2));
}

#[test]
fn test_get_active_focused_window() {
    let windows = ls_output();
    let focused = focused_active_window(&windows).unwrap();
    assert_eq!(focused.id, 2);
    assert_eq!(focused, &windows[0].tabs[0].windows[1]);
}

#[test]
fn no_focused_window_when_tab_is_not_focused() {
    let mut windows = ls_output();
    windows[0].tabs[0].is_focused = false;
    assert!(focused_active_window(&windows).is_none());
    assert!(focused_active_window(&Vec::new()).is_none());

    let mut server = Server::new();
    server.accepted();
    assert_eq!(
        server.request_read(&encode(&Command::GetActiveFocusedWindow)),
        Action::ListWindows
    );
    assert_eq!(
        server.windows_listed(&windows),
        Action::Close(Failure::WindowNotFound)
    );
}

#[test]
fn workspace_is_the_editor_window_holding_the_file() {
    let windows = ls_output();
    assert_eq!(find_workspace(&windows, "/path/to/felis/src/lib.rs").map(|w| w.id), Some(1));
    assert_eq!(find_workspace(&windows, "/path/to/felis/Cargo.toml").map(|w| w.id), Some(1));
    assert!(find_workspace(&windows, "/elsewhere/file.txt").is_none());
    assert!(find_workspace(&windows, "/path/to/felisx/file.txt").is_none());
}

#[test]
fn server_stops_after_answering_shutdown() {
    let mut server = Server::new();
    assert_eq!(server.accept_failed(), Action::Accept);
    server.accepted();
    assert_eq!(
        server.request_read(&encode(&Command::Shutdown)),
        Action::Respond(encode(&Response::Ack))
    );
    assert!(!server.is_stopped());
    assert_eq!(server.connection_done(), Action::Stop);
    assert!(server.is_stopped());
}

#[test]
fn window_ids_are_written_in_decimal() {
    let cmd = kitty_send_text_cmd(4294967295, "x");
    assert_eq!(cmd.program, "kitty");
    assert_eq!(cmd.args, vec!["@", "send-text", "--match", "id:4294967295", "x"]);
    assert_eq!(kitty_send_text_cmd(0, "y").args[3], "id:0");
    assert_eq!(kitty_send_text_cmd(10, "y").args[3], "id:10");
}

#[test]
fn stub_captures_writes() {
    let mut stub = ReaderWriterStub::new(vec![1, 2, 3]);
    assert_eq!(stub.to_read(), &[1, 2, 3]);
    assert!(stub.written().is_empty());
    stub.write_all(&[4, 5]);
    stub.write_all(&[6]);
    assert_eq!(stub.written(), &vec![4, 5, 6]);
}

fn ok() -> Output {
    Output { status: Some(0), stdout: Vec::new(), stderr: Vec::new() }
}

fn open(path: &str, window: Option<u32>, flag: Option<Flag>) -> Vec<u8> {
    encode(&Command::OpenInHelix(OpenInHelix {
        path: path.to_string(),
        kitty_tab_id: window,
        flag,
    }))
}

/// Drives a live open request and returns the command lines it ran and the
/// final action.
fn drive_open(request: &[u8]) -> (Vec<felis::executor::ProcessCommand>, Action) {
    let mut server = Server::new();
    server.accepted();
    assert_eq!(server.request_read(request), Action::ListWindows);
    let mut action = server.windows_listed(&ls_output());
    let mut ran = Vec::new();
    while let Action::Run(cmd, flag) = action {
        assert_eq!(flag, Flag::NoOp);
        ran.push(cmd);
        action = server.command_ran(ok());
    }
    (ran, action)
}

#[test]
fn test_open_in_helix_with_kitty_tab_id_command() {
    let (ran, last) = drive_open(&open("src/lib.rs", Some(1), None));
    assert_eq!(
        ran,
        vec![
            kitty_focus_window_cmd(1),
            kitty_send_text_cmd(1, r"\E"),
            kitty_send_text_cmd(1, r":open src/lib.rs\r"),
        ]
    );
    assert_eq!(last, Action::Respond(encode(&Response::Ack)));
}

#[test]
fn command_server_test_open_in_helix_turns_absolute_path_to_relative() {
    let (ran, last) = drive_open(&open("/path/to/felis/src/lib.rs", Some(1), None));
    assert_eq!(
        ran,
        vec![
            kitty_focus_window_cmd(1),
            kitty_send_text_cmd(1, r"\E"),
            kitty_send_text_cmd(1, r":open src/lib.rs\r"),
        ]
    );
    assert_eq!(last, Action::Respond(encode(&Response::Ack)));
}

#[test]
fn test_open_in_helix_without_kitty_tab_id_command() {
    let (ran, last) = drive_open(&open("src/lib.rs", None, None));
    assert_eq!(
        ran,
        vec![
            kitty_focus_window_cmd(1),
            kitty_send_text_cmd(1, r"\E"),
            kitty_send_text_cmd(1, r":open src/lib.rs\r"),
        ]
    );
    assert_eq!(last, Action::Respond(encode(&Response::Ack)));
}

#[test]
fn command_server_test_open_in_helix_without_kitty_tab_id_command_resolves_relative_path() {
    let (ran, _) = drive_open(&open("src/lib.rs", None, None));
    assert_eq!(ran[0], kitty_focus_window_cmd(1));
    assert_eq!(ran[2].args[4], r":open src/lib.rs\r");
}

#[test]
fn open_in_unknown_window_fails_without_typing() {
    let (ran, last) = drive_open(&open("/path/to/felis/src/lib.rs", Some(9), None));
    assert!(ran.is_empty());
    assert_eq!(last, Action::Close(Failure::WindowNotFound));
}

#[test]
fn open_outside_any_workspace_fails() {
    let (ran, last) = drive_open(&open("/elsewhere/file.txt", None, None));
    assert!(ran.is_empty());
    assert_eq!(last, Action::Close(Failure::WorkspaceNotFound));
    let (_, last) = drive_open(&open("/elsewhere/file.txt", Some(1), None));
    assert_eq!(last, Action::Close(Failure::OutsideWorkingDirectory));
}

#[test]
fn dry_run_open_reports_the_command_lines() {
    let listener = serve(vec![open("/path/to/felis/some-file.txt", Some(1), Some(Flag::DryRun))]);
    let expected = r#""kitty" "@" "focus-window" "--match" "id:1"
"kitty" "@" "send-text" "--match" "id:1" "\\E"
"kitty" "@" "send-text" "--match" "id:1" ":open some-file.txt\\r"
"#;
    assert_eq!(response_of(&listener, 0), Response::Message(expected.to_string()));
}

#[test]
fn live_open_through_the_loop_is_acknowledged() {
    let listener = serve(vec![open("/path/to/felis/src/lib.rs", None, None), encode(&Command::Shutdown)]);
    assert_eq!(listener.accepted(), 2);
    assert_eq!(response_of(&listener, 0), Response::Ack);
}

#[test]
fn failed_command_closes_the_connection() {
    let mut server = Server::new();
    server.accepted();
    server.request_read(&open("/path/to/felis/src/lib.rs", Some(1), None));
    let first = server.windows_listed(&ls_output());
    assert_eq!(first, Action::Run(kitty_focus_window_cmd(1), Flag::NoOp));
    let failed = Output { status: Some(1), stdout: Vec::new(), stderr: b"no window".to_vec() };
    assert_eq!(server.command_ran(failed), Action::Close(Failure::CommandFailed(Some(1))));
    assert_eq!(server.connection_done(), Action::Accept);
    assert!(!server.is_stopped());
}

#[test]
fn run_failure_and_unavailable_windows_close_the_connection() {
    let mut server = Server::new();
    server.accepted();
    server.request_read(&open("/path/to/felis/src/lib.rs", Some(1), None));
    server.windows_listed(&ls_output());
    assert_eq!(
        server.run_failed(ExecError::SpawnFailed),
        Action::Close(Failure::Execution(ExecError::SpawnFailed))
    );
    server.connection_done();
    server.accepted();
    server.request_read(&encode(&Command::GetActiveFocusedWindow));
    assert_eq!(server.windows_unavailable(), Action::Close(Failure::WindowsUnavailable));
}

#[test]
fn find_window_by_id_finds_listed_windows_only() {
    let windows = ls_output();
    assert_eq!(find_window_by_id(&windows, 3).map(|w| w.id), Some(3));
    assert!(find_window_by_id(&windows, 4).is_none());
}
