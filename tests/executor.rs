use felis::envelope::Flag;
use felis::executor::{command_line, Batch, Configurable, DryRun, ExecError, Output, ProcessCommand, Strategy,
    TokioRuntime};

fn command(program: &str, args: &[&str]) -> ProcessCommand {
    let mut cmd = ProcessCommand::new(program);
    for a in args {
        cmd.arg(a);
    }
    cmd
}

fn output(status: Option<i32>, stdout: &str, stderr: &str) -> Output {
    Output {
        status,
        stdout: stdout.as_bytes().to_vec(),
        stderr: stderr.as_bytes().to_vec(),
    }
}

#[test]
fn executor_test_dry_run_executor_should_return_command_line() {
    let result = DryRun
        .execute(&command("echo", &["Hello World!"]), Flag::NoOp)
        .unwrap();
    let stdout = String::from_utf8(result.stdout.clone()).unwrap();
    assert_eq!(
        stdout.as_str(),
        r#""echo" "Hello World!"
"#
    );
    assert!(result.success());
    assert!(result.stderr.is_empty());
}

#[test]
fn executor_test_dry_run_executor_execute_all_should_aggregate_putputs() {
    let cmds = vec![command("echo", &["Hello World!"]), command("ls", &["foobar"])];
    let result = DryRun.execute_all(cmds, Flag::NoOp).unwrap();
    let stdout = String::from_utf8(result.stdout).unwrap();
    assert_eq!(
        stdout.as_str(),
        r#""echo" "Hello World!"
"ls" "foobar"
"#
    );
}

#[test]
fn dry_run_escapes_quotes_and_backslashes() {
    let result = DryRun
        .execute(&command("kitty", &["\\E", "say \"hi\""]), Flag::DryRun)
        .unwrap();
    assert_eq!(
        String::from_utf8(result.stdout).unwrap(),
        "\"kitty\" \"\\\\E\" \"say \\\"hi\\\"\"\n"
    );
}

#[test]
fn dry_run_of_no_commands_is_empty_success() {
    let result = DryRun.execute_all(Vec::new(), Flag::DryRun).unwrap();
    assert!(result.success());
    assert!(result.stdout.is_empty());
}

#[test]
fn execute_all_stops_after_the_first_failure() {
    let cmds = vec![
        command("first", &[]),
        command("second", &[]),
        command("third", &[]),
    ];
    let mut batch = Batch::new(cmds);
    let mut ran = Vec::new();
    let mut outputs = vec![
        output(Some(0), "one\n", "e1"),
        output(Some(2), "two\n", "e2"),
        output(Some(0), "three\n", "e3"),
    ]
    .into_iter();
    while let Some(cmd) = batch.next_command() {
        ran.push(cmd.program.clone());
        let out = outputs.next().unwrap();
        batch.record(out);
    }
    assert_eq!(ran, vec!["first".to_string(), "second".to_string()]);
    let gathered = batch.into_output();
    assert_eq!(gathered, output(Some(2), "one\ntwo\n", "e1e2"));
    assert!(!gathered.success());
}

#[test]
fn execute_all_runs_everything_when_all_succeed() {
    let mut batch = Batch::new(vec![command("a", &[]), command("b", &[])]);
    let mut n = 0;
    while batch.next_command().is_some() {
        n += 1;
        batch.record(output(Some(0), "x", ""));
    }
    assert_eq!(n, 2);
    assert_eq!(batch.into_output(), output(Some(0), "xx", ""));
}

#[test]
fn signal_ended_command_is_a_failure() {
    assert!(!output(None, "", "").success());
    let mut batch = Batch::new(vec![command("a", &[]), command("b", &[])]);
    batch.record(output(None, "", "killed"));
    assert!(batch.next_command().is_none());
}

#[test]
fn live_runtime_rejects_dry_run() {
    assert_eq!(
        TokioRuntime.check_flag(Flag::DryRun),
        Err(ExecError::DryRunUnsupported)
    );
    assert_eq!(TokioRuntime.check_flag(Flag::NoOp), Ok(()));
}

#[test]
fn configurable_follows_the_flag() {
    assert_eq!(Configurable.select(Flag::DryRun), Strategy::Simulated);
    assert_eq!(Configurable.select(Flag::NoOp), Strategy::Live);
}

#[test]
fn command_line_lays_out_quoted_parts() {
    assert_eq!(
        command_line("\"ls\"", &vec!["\"-l\"".to_string(), "\"a b\"".to_string()]),
        "\"ls\" \"-l\" \"a b\"\n"
    );
    assert_eq!(command_line("p", &Vec::new()), "p\n");
}
