use my_cli_tool::executor::{resume, start_command, Event, Request, Step};
use my_cli_tool::session::ShellCore;

/// Runs a line to its end. Programs are reported as not found, `cd src`
/// finds a directory, `cd file.txt` finds a file, any other `cd` operand is
/// missing, and writes succeed.
/// Returns the result text and the files that were written.
fn run_line(core: &mut ShellCore, line: &str) -> (String, Vec<(String, String)>) {
    let mut written = Vec::new();
    let (run, mut step) = start_command(core, line);
    let mut run = match run {
        Some(r) => r,
        None => match step {
            Step::Done(t) => return (t, written),
            _ => panic!("a line without a run must be done"),
        },
    };
    loop {
        let event = match step {
            Step::Done(t) => return (t, written),
            Step::WriteFile(path, text) => {
                written.push((path, text));
                Event::Written
            }
            Step::Perform(Request::External(_, _, _)) => Event::NotFound,
            Step::Perform(Request::ChangeDir(p)) => {
                if p == "src" {
                    Event::Directory(format!("{}/src", core.current_dir))
                } else if p == "file.txt" {
                    Event::NotDirectory
                } else {
                    Event::Missing
                }
            }
            Step::Perform(Request::Builtin(_, _)) => Event::Output(String::new()),
        };
        step = resume(core, &mut run, event);
    }
}

fn output_of(core: &mut ShellCore, line: &str) -> String {
    run_line(core, line).0
}

#[test]
fn test_builtin_grep_in_pipeline() {
    let mut shell_core = ShellCore::new("/work".to_string());
    let command = "echo \"hello\nworld\nhello rust\" | grep hello";
    let output = output_of(&mut shell_core, command);
    assert_eq!(output.trim(), "hello\nhello rust");
}

#[test]
fn test_pipeline_with_redirection() {
    let mut shell_core = ShellCore::new("/work".to_string());
    let test_file = "test_pipe_output.txt";
    let command = "echo \"apple\nbanana\napple pie\" | grep apple";
    let full_command = format!("{} > {}", command, test_file);

    let (output, written) = run_line(&mut shell_core, &full_command);
    assert!(output.is_empty(), "Output should be empty, but was: {}", output);

    assert_eq!(written.len(), 1);
    assert_eq!(written[0].0, test_file);
    assert_eq!(written[0].1.trim(), "apple\napple pie");
}

#[test]
fn test_three_stage_pipeline() {
    let mut shell_core = ShellCore::new("/work".to_string());
    let command = "echo \"apple\nbanana\napple pie\nblueberry\" | grep apple | grep pie";
    let output = output_of(&mut shell_core, command);
    assert_eq!(output.trim(), "apple pie");
}

#[test]
fn test_pipeline_error_in_middle() {
    let mut shell_core = ShellCore::new("/work".to_string());
    let command = "echo 'hello' | nonexistentcommand | grep hello";
    let output = output_of(&mut shell_core, command);
    assert!(output.contains("Error: nonexistentcommand: command not found"));
}

#[test]
fn test_pipeline_with_quoted_args() {
    let mut shell_core = ShellCore::new("/work".to_string());
    let command = "echo 'hello \"world\"' | grep 'hello \"world\"'";
    let output = output_of(&mut shell_core, command);
    assert_eq!(output.trim(), "hello \"world\"");
}

#[test]
fn test_env_var_management() {
    let mut shell_core = ShellCore::new("/work".to_string());

    let output = output_of(&mut shell_core, "export MY_VAR=test_value");
    assert!(output.is_empty());

    let output = output_of(&mut shell_core, "export");
    assert!(output.contains("export MY_VAR=test_value"));

    let output = output_of(&mut shell_core, "echo %MY_VAR%");
    assert_eq!(output.trim(), "test_value");

    let output = output_of(&mut shell_core, "unset MY_VAR");
    assert!(output.is_empty());

    let output = output_of(&mut shell_core, "export");
    assert!(!output.contains("export MY_VAR=test_value"));

    let output = output_of(&mut shell_core, "echo %MY_VAR%");
    assert_eq!(output.trim(), "%MY_VAR%");
}

#[test]
fn mod_test_execute_shell_command_invalid() {
    let mut shell_core = ShellCore::new("/work".to_string());
    let output = output_of(&mut shell_core, "nonexistent_command_12345");
    assert!(output.contains("Error: nonexistent_command_12345: command not found"));
}

#[test]
fn test_execute_unknown_command() {
    let mut shell_core = ShellCore::new("/work".to_string());
    let output = output_of(&mut shell_core, "nonexistent_command_xyz");
    assert!(output.contains("command not found"));
}

#[test]
fn test_command_not_found() {
    let mut shell_core = ShellCore::new("/work".to_string());
    let output = output_of(&mut shell_core, "nonexistentcommand12345");
    assert!(output.contains("command not found"));
}

#[test]
fn test_cd_builtin() {
    let mut shell_core = ShellCore::new("/work".to_string());
    let output = output_of(&mut shell_core, "cd src");
    assert_eq!(output, "");
    assert_eq!(shell_core.current_dir, "/work/src");
    assert_eq!(shell_core.get_current_dir(), "/work/src");

    let output = output_of(&mut shell_core, "cd nonexistent_dir_123");
    assert!(output.contains("cd: 'nonexistent_dir_123': No such file or directory"));
    assert_eq!(shell_core.current_dir, "/work/src");
}

#[test]
fn cd_usage_ends_the_line() {
    let mut shell_core = ShellCore::new("/work".to_string());
    assert_eq!(output_of(&mut shell_core, "cd | echo after"), "Usage: cd <directory>\n");
    assert_eq!(output_of(&mut shell_core, "cd a b"), "Usage: cd <directory>\n");
    assert_eq!(shell_core.current_dir, "/work");
}

#[test]
fn cd_failure_in_a_later_stage_ends_the_line() {
    let mut shell_core = ShellCore::new("/work".to_string());
    let output = output_of(&mut shell_core, "echo x | cd nowhere | echo after");
    assert_eq!(output, "cd: 'nowhere': No such file or directory\n");
}

#[test]
fn grep_reads_the_previous_stage() {
    let mut shell_core = ShellCore::new("/work".to_string());
    let output = output_of(&mut shell_core, "echo \"a\\nb\\na2\" | grep a");
    assert_eq!(output, "a\na2");
    for line in output.lines() {
        assert!(line.contains('a'));
    }
}

#[test]
fn redirection_of_one_stage_writes_its_output() {
    let mut shell_core = ShellCore::new("/work".to_string());
    let (output, written) = run_line(&mut shell_core, "echo \"x\" | grep x > out.txt");
    assert_eq!(output, "");
    assert_eq!(written, vec![("out.txt".to_string(), "x".to_string())]);
    let (output, written) = run_line(&mut shell_core, "echo \"x\\n\" | grep x > out.txt");
    assert_eq!(output, "");
    assert_eq!(written, vec![("out.txt".to_string(), "x\n".to_string())]);
}

#[test]
fn failed_write_is_an_error() {
    let mut shell_core = ShellCore::new("/work".to_string());
    let (run, step) = start_command(&mut shell_core, "echo hi > /locked/out.txt");
    let mut run = run.unwrap();
    match step {
        Step::WriteFile(path, text) => {
            assert_eq!(path, "/locked/out.txt");
            assert_eq!(text, "hi");
        }
        _ => panic!("expected a write"),
    }
    match resume(&mut shell_core, &mut run, Event::WriteFailed("permission denied".to_string())) {
        Step::Done(t) => assert_eq!(t, "Error: permission denied"),
        _ => panic!("expected the end of the line"),
    }
}

#[test]
fn alias_then_listing() {
    let mut shell_core = ShellCore::new("/work".to_string());
    assert_eq!(output_of(&mut shell_core, "alias ll='ls -l'"), "");
    let listing = output_of(&mut shell_core, "alias");
    assert!(listing.contains("alias ll='ls -l'"));
    assert_eq!(output_of(&mut shell_core, "unalias ll"), "Alias 'll' removed.\n");
}

#[test]
fn alias_is_expanded_in_the_first_word() {
    let mut shell_core = ShellCore::new("/work".to_string());
    output_of(&mut shell_core, "alias say=echo");
    assert_eq!(output_of(&mut shell_core, "say hello there"), "hello there");
}

#[test]
fn export_echo_unset_round() {
    let mut shell_core = ShellCore::new("/work".to_string());
    output_of(&mut shell_core, "export VAR=1");
    assert_eq!(output_of(&mut shell_core, "echo %VAR%"), "1");
    output_of(&mut shell_core, "unset VAR");
    assert_eq!(output_of(&mut shell_core, "echo %VAR%"), "%VAR%");
}

#[test]
fn unknown_command_aborts_at_any_position() {
    let lines = [
        "nonexistentcommand12345 | echo a | grep a",
        "echo a | nonexistentcommand12345 | grep a",
        "echo a | grep a | nonexistentcommand12345",
    ];
    for line in lines {
        let mut shell_core = ShellCore::new("/work".to_string());
        let output = output_of(&mut shell_core, line);
        assert_eq!(output, "Error: nonexistentcommand12345: command not found");
    }
}

#[test]
fn blank_lines_do_nothing() {
    let mut shell_core = ShellCore::new("/work".to_string());
    assert_eq!(output_of(&mut shell_core, ""), "");
    assert_eq!(output_of(&mut shell_core, "   \t "), "");
}

#[test]
fn parse_errors_are_the_result() {
    let mut shell_core = ShellCore::new("/work".to_string());
    assert_eq!(output_of(&mut shell_core, "echo hi >  "), "Redirection filename is missing.");
    assert_eq!(output_of(&mut shell_core, "echo hi | | grep x"), "Empty command in pipeline.");
    assert_eq!(output_of(&mut shell_core, "| echo"), "Empty command in pipeline.");
}

#[test]
fn outside_builtin_is_requested_with_its_arguments() {
    let mut shell_core = ShellCore::new("/work".to_string());
    let (run, step) = start_command(&mut shell_core, "echo x | ls -a dir");
    let mut run = run.unwrap();
    match step {
        Step::Perform(Request::Builtin(k, args)) => {
            assert_eq!(k, my_cli_tool::executor::Builtin::Ls);
            assert_eq!(args, vec!["-a".to_string(), "dir".to_string()]);
        }
        _ => panic!("expected a request"),
    }
    match resume(&mut shell_core, &mut run, Event::Output("one\ntwo\n".to_string())) {
        Step::Done(t) => assert_eq!(t, "one\ntwo\n"),
        _ => panic!("expected the end of the line"),
    }
}

#[test]
fn external_program_gets_the_previous_output() {
    let mut shell_core = ShellCore::new("/work".to_string());
    let (run, step) = start_command(&mut shell_core, "echo abc | sort -r | grep b");
    let mut run = run.unwrap();
    match step {
        Step::Perform(Request::External(name, args, input)) => {
            assert_eq!(name, "sort");
            assert_eq!(args, vec!["-r".to_string()]);
            assert_eq!(input, "abc");
        }
        _ => panic!("expected a program"),
    }
    match resume(&mut shell_core, &mut run, Event::Output("zbz\nq\n".to_string())) {
        Step::Done(t) => assert_eq!(t, "zbz\n"),
        _ => panic!("expected the end of the line"),
    }
    let (run, _) = start_command(&mut shell_core, "false | echo after");
    let mut run = run.unwrap();
    match resume(&mut shell_core, &mut run, Event::Failed("it failed".to_string())) {
        Step::Done(t) => assert_eq!(t, "Error: it failed"),
        _ => panic!("expected the end of the line"),
    }
}

#[test]
fn operand_checks_run_here() {
    let mut shell_core = ShellCore::new("/work".to_string());
    assert_eq!(output_of(&mut shell_core, "mkdir"), "mkdir: missing operand\n");
    assert_eq!(output_of(&mut shell_core, "rm"), "rm: missing operand\n");
    assert_eq!(
        output_of(&mut shell_core, "cp a"),
        "cp: missing file operand\nTry 'cp --help' for more information.\n"
    );
    assert_eq!(
        output_of(&mut shell_core, "mv"),
        "mv: missing file operand\nTry 'mv --help' for more information.\n"
    );
    assert_eq!(output_of(&mut shell_core, "cat"), "Error: cat: missing operand");
    assert_eq!(output_of(&mut shell_core, "ping"), "Usage: ping <host>\n");
    assert_eq!(output_of(&mut shell_core, "open"), "Usage: open <file_or_directory>\n");
    assert_eq!(output_of(&mut shell_core, "ls -x"), "ls: invalid option -- 'x'\n");
    assert_eq!(output_of(&mut shell_core, "grep"), "Error: grep: missing pattern");
}

#[test]
fn git_info_is_recorded() {
    let mut shell_core = ShellCore::new("/work".to_string());
    assert!(shell_core.git_info.is_none());
    shell_core.update_git_info(Some(my_cli_tool::session::GitInfo {
        branch_name: "main".to_string(),
        has_changes: true,
    }));
    let info = shell_core.git_info.as_ref().unwrap();
    assert_eq!(info.branch_name, "main");
    assert!(info.has_changes);
}

#[test]
fn cd_into_a_file_is_refused() {
    let mut shell_core = ShellCore::new("/work".to_string());
    let output = output_of(&mut shell_core, "cd file.txt");
    assert_eq!(output, "cd: 'file.txt': Not a directory\n");
    assert_eq!(shell_core.current_dir, "/work");
}
