use minishell::Action;
use minishell::Builtin;
use minishell::Command;
use minishell::UsageError;
use minishell::execute;
use minishell::join_path;
use minishell::parse_i32;
use minishell::resolve;
use minishell::split_search_path;
use minishell::split_tokens;

fn no_snapshot() -> (Vec<String>, Vec<bool>) {
    (Vec::new(), Vec::new())
}

#[test]
fn echo_no_args_writes_newline() {
    let (dirs, is_file) = no_snapshot();
    let args: Vec<String> = Vec::new();
    match Builtin::Echo.run(&args, &dirs, &is_file) {
        Ok(Action::Print(s)) => assert_eq!(s, "\n"),
        other => panic!("expected a print action, got {:?}", other),
    }
}

#[test]
fn echo_joins_args_with_single_spaces() {
    let (dirs, is_file) = no_snapshot();
    let args = vec!["a".to_string(), "b".to_string(), "c".to_string()];
    match Builtin::Echo.run(&args, &dirs, &is_file) {
        Ok(Action::Print(s)) => assert_eq!(s, "a b c\n"),
        other => panic!("expected a print action, got {:?}", other),
    }
}

#[test]
fn exit_without_status_terminates_with_zero() {
    let (dirs, is_file) = no_snapshot();
    let args: Vec<String> = Vec::new();
    match Builtin::Exit.run(&args, &dirs, &is_file) {
        Ok(Action::Terminate(code)) => assert_eq!(code, 0),
        other => panic!("expected termination, got {:?}", other),
    }
}

#[test]
fn exit_parses_its_status_argument() {
    let (dirs, is_file) = no_snapshot();
    let args = vec!["-17".to_string(), "ignored".to_string()];
    match Builtin::Exit.run(&args, &dirs, &is_file) {
        Ok(Action::Terminate(code)) => assert_eq!(code, -17),
        other => panic!("expected termination, got {:?}", other),
    }
}

#[test]
fn exit_rejects_a_malformed_status() {
    let (dirs, is_file) = no_snapshot();
    let args = vec!["seven".to_string()];
    let r = Builtin::Exit.run(&args, &dirs, &is_file);
    assert_eq!(r.unwrap_err(), UsageError::InvalidExitCode);
}

#[test]
fn type_without_operand_is_a_usage_error() {
    let (dirs, is_file) = no_snapshot();
    let args: Vec<String> = Vec::new();
    let r = Builtin::Type.run(&args, &dirs, &is_file);
    assert_eq!(r.unwrap_err(), UsageError::MissingTypeArgument);
}

#[test]
fn type_uses_only_its_first_operand() {
    let (dirs, is_file) = no_snapshot();
    let args = vec!["echo".to_string(), "exit".to_string()];
    match Builtin::Type.run(&args, &dirs, &is_file) {
        Ok(Action::Print(s)) => assert_eq!(s, "echo is a shell builtin\n"),
        other => panic!("expected a print action, got {:?}", other),
    }
}

#[test]
fn dispatching_an_unknown_name_reports_it() {
    let (dirs, is_file) = no_snapshot();
    let args: Vec<String> = Vec::new();
    let command = Command::NotFound("zz".to_string());
    match execute(command, &args, &dirs, &is_file) {
        Ok(Action::Print(s)) => assert_eq!(s, "zz: command not found\n"),
        other => panic!("expected a print action, got {:?}", other),
    }
}

#[test]
fn dispatching_an_executable_asks_for_a_launch() {
    let (dirs, is_file) = no_snapshot();
    let args = vec!["-l".to_string()];
    let command = Command::Executable("/usr/bin/ls".to_string());
    match execute(command, &args, &dirs, &is_file) {
        Ok(Action::Launch(path)) => assert_eq!(path, "/usr/bin/ls"),
        other => panic!("expected a launch, got {:?}", other),
    }
}

#[test]
fn resolution_takes_the_first_directory_with_a_hit() {
    let dirs = vec!["/first/bin".to_string(), "/second/bin".to_string()];
    let is_file = vec![true, true];
    let command = resolve("h", &dirs, &is_file);
    assert_eq!(command, Command::Executable("/first/bin/h".to_string()));
}

#[test]
fn resolution_skips_directories_without_a_hit() {
    let dirs = vec!["/first/bin".to_string(), "/second/bin".to_string()];
    let is_file = vec![false, true];
    let command = resolve("h", &dirs, &is_file);
    assert_eq!(command, Command::Executable("/second/bin/h".to_string()));
}

#[test]
fn resolution_without_any_hit_is_not_found() {
    let dirs = vec!["/first/bin".to_string(), "/second/bin".to_string()];
    let is_file = vec![false, false];
    let command = resolve("g", &dirs, &is_file);
    assert_eq!(command, Command::NotFound("g".to_string()));
}

#[test]
fn search_path_splits_on_colons() {
    let dirs = split_search_path("/usr/bin:/bin:/opt/tools/bin");
    assert_eq!(
        dirs,
        vec![
            "/usr/bin".to_string(),
            "/bin".to_string(),
            "/opt/tools/bin".to_string()
        ]
    );
}

#[test]
fn search_path_keeps_empty_fields() {
    assert_eq!(
        split_search_path(":/bin:"),
        vec!["".to_string(), "/bin".to_string(), "".to_string()]
    );
    assert_eq!(split_search_path(""), vec!["".to_string()]);
}

#[test]
fn tokenizing_collapses_whitespace() {
    let tokens = split_tokens("  echo\thello   world \n");
    assert_eq!(
        tokens,
        vec!["echo".to_string(), "hello".to_string(), "world".to_string()]
    );
}

#[test]
fn tokenizing_a_blank_line_yields_nothing() {
    assert_eq!(split_tokens(""), Vec::<String>::new());
    assert_eq!(split_tokens("   \t "), Vec::<String>::new());
}

#[test]
fn join_path_inserts_a_separator() {
    assert_eq!(join_path("/usr/bin", "ls"), "/usr/bin/ls");
}

#[test]
fn join_path_adds_no_second_separator() {
    assert_eq!(join_path("/usr/bin/", "ls"), "/usr/bin/ls");
    assert_eq!(join_path("", "ls"), "ls");
}

#[test]
fn dispatching_a_builtin_runs_it() {
    let (dirs, is_file) = no_snapshot();
    let args = vec!["hi".to_string()];
    let command = Command::Builtin(Builtin::Echo);
    match execute(command, &args, &dirs, &is_file) {
        Ok(Action::Print(s)) => assert_eq!(s, "hi\n"),
        other => panic!("expected a print action, got {:?}", other),
    }
}

#[test]
fn a_whole_line_flows_through_resolution_and_dispatch() {
    let tokens = split_tokens("echo one  two\n");
    let name = tokens[0].clone();
    let args = tokens[1..].to_vec();
    let dirs = split_search_path("/usr/bin:/bin");
    let is_file = vec![false; dirs.len()];
    let command = resolve(&name, &dirs, &is_file);
    assert_eq!(command, Command::Builtin(Builtin::Echo));
    match execute(command, &args, &dirs, &is_file) {
        Ok(Action::Print(s)) => assert_eq!(s, "one two\n"),
        other => panic!("expected a print action, got {:?}", other),
    }
}

#[test]
fn parse_accepts_signed_decimals() {
    assert_eq!(parse_i32("0"), Ok(0));
    assert_eq!(parse_i32("+42"), Ok(42));
    assert_eq!(parse_i32("-17"), Ok(-17));
    assert_eq!(parse_i32("007"), Ok(7));
    assert_eq!(parse_i32("2147483647"), Ok(2147483647));
    assert_eq!(parse_i32("-2147483648"), Ok(-2147483648));
}

#[test]
fn parse_rejects_malformed_or_out_of_range_text() {
    assert_eq!(parse_i32(""), Err(()));
    assert_eq!(parse_i32("+"), Err(()));
    assert_eq!(parse_i32("-"), Err(()));
    assert_eq!(parse_i32("--1"), Err(()));
    assert_eq!(parse_i32("1 2"), Err(()));
    assert_eq!(parse_i32("seven"), Err(()));
    assert_eq!(parse_i32("2147483648"), Err(()));
    assert_eq!(parse_i32("-2147483649"), Err(()));
    assert_eq!(parse_i32("99999999999999999999"), Err(()));
}
