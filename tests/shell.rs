use minishell::command::{parse, Command};
use minishell::pipeline::Pipeline;
use minishell::registry::{Builtin, Shell};
use minishell::search::{candidates, join, resolve, search_dirs};
use minishell::shell::{
    cd_failed, home_expanded, not_found, pwd_output, type_found, Action, Input, Output, State,
};

fn standard_shell() -> Shell {
    let mut s = Shell::new();
    s.register_command("cd", Builtin::Cd);
    s.register_command("pwd", Builtin::Pwd);
    s.register_command("echo", Builtin::Echo);
    s.register_command("exit", Builtin::Exit);
    s.register_command("type", Builtin::Type);
    s
}

fn first(line: &str) -> Command {
    parse(line.to_string()).into_iter().next().unwrap()
}

fn done(a: Action) -> Output {
    match a {
        Action::Done(Ok(o)) => o,
        _ => panic!("the stage was expected to finish"),
    }
}

fn text(o: &Output) -> String {
    String::from_utf8(o.stdout.clone().unwrap()).unwrap()
}

#[test]
fn echo_pipe_cat_writes_once() {
    let mut shell = standard_shell();
    let cmds = parse("echo hi | cat".to_string());
    let mut run = Pipeline::new(cmds.len());
    let mut stages_run = 0;
    while let Some((i, stdin)) = run.next_stage() {
        let out = match shell.run_command(&cmds[i], stdin) {
            Action::Done(Ok(o)) => o,
            Action::External(input) => {
                assert_eq!(input.program, "cat");
                assert_eq!(input.stdin, Some(b"hi\n".to_vec()));
                Output::with_output(0, input.stdin.unwrap())
            }
            _ => panic!("unexpected action"),
        };
        run.complete(out);
        stages_run += 1;
    }
    assert_eq!(stages_run, 2);
    let last = run.finish().unwrap();
    assert_eq!(last.stdout, Some(b"hi\n".to_vec()));
    assert!(!last.exit);
    assert_eq!(last.code, 0);
}

#[test]
fn first_stage_reads_no_input() {
    let mut run = Pipeline::new(1);
    let (i, stdin) = run.next_stage().unwrap();
    assert_eq!(i, 0);
    assert!(stdin.is_none());
}

#[test]
fn exit_stops_the_line() {
    let mut shell = standard_shell();
    let cmds = parse("exit | echo later\n".to_string());
    assert_eq!(cmds.len(), 2);
    let mut run = Pipeline::new(cmds.len());
    let mut ran = Vec::new();
    while let Some((i, stdin)) = run.next_stage() {
        ran.push(i);
        let out = done(shell.run_command(&cmds[i], stdin));
        run.complete(out);
    }
    assert_eq!(ran, vec![0]);
    let last = run.finish().unwrap();
    assert!(last.exit);
    assert_eq!(last.code, 0);
    assert!(last.stdout.is_none());
}

#[test]
fn empty_line_runs_nothing() {
    let mut run = Pipeline::new(0);
    assert!(run.next_stage().is_none());
    let last = run.finish().unwrap();
    assert!(last.stdout.is_none());
    assert!(!last.exit);
}

#[test]
fn no_output_is_handed_on_as_none() {
    let mut run = Pipeline::new(2);
    run.next_stage().unwrap();
    run.complete(Output::empty(0));
    let (i, stdin) = run.next_stage().unwrap();
    assert_eq!(i, 1);
    assert!(stdin.is_none());
}

#[test]
fn echo_without_arguments_is_a_newline() {
    let mut shell = standard_shell();
    let o = done(shell.run_command(&first("echo\n"), None));
    assert_eq!(text(&o), "\n");
    assert_eq!(o.code, 0);
}

#[test]
fn echo_joins_with_single_spaces() {
    let mut shell = standard_shell();
    let o = done(shell.run_command(&first("echo  a   'b  c' d"), None));
    assert_eq!(text(&o), "a b  c d\n");
}

#[test]
fn echo_handler_directly() {
    let mut state = State { builtin_commands: vec![] };
    let input = Input {
        stdin: None,
        program: "echo".to_string(),
        arguments: vec!["x".to_string(), "y".to_string()],
    };
    let o = minishell::shell::echo(&mut state, input).unwrap();
    assert_eq!(text(&o), "x y\n");
}

#[test]
fn type_of_builtin() {
    let mut shell = standard_shell();
    let o = done(shell.run_command(&first("type cd"), None));
    assert_eq!(text(&o), "cd is a shell builtin\n");
    assert_eq!(o.code, 0);
}

#[test]
fn type_of_unknown_name() {
    let mut shell = standard_shell();
    match shell.run_command(&first("type nonexistent_xyz"), None) {
        Action::Locate(name) => {
            assert_eq!(name, "nonexistent_xyz");
            let o = type_found(&name, None);
            assert_eq!(text(&o), "nonexistent_xyz: not found\n");
            assert_eq!(o.code, 1);
        }
        _ => panic!("expected a search"),
    }
}

#[test]
fn type_of_found_program() {
    let o = type_found("ls", Some("/bin/ls".to_string()));
    assert_eq!(text(&o), "ls is /bin/ls\n");
    assert_eq!(o.code, 0);
}

#[test]
fn type_needs_one_argument() {
    let mut shell = standard_shell();
    let o = done(shell.run_command(&first("type a b"), None));
    assert_eq!(text(&o), "type expects 1 argument\n");
    assert_eq!(o.code, 1);
    let o = done(shell.run_command(&first("type\n"), None));
    assert_eq!(o.code, 1);
}

#[test]
fn cd_needs_one_argument() {
    let mut shell = standard_shell();
    let o = done(shell.run_command(&first("cd\n"), None));
    assert_eq!(text(&o), "cd: too many arguments\n");
    assert_eq!(o.code, 1);
    let o = done(shell.run_command(&first("cd a b"), None));
    assert_eq!(text(&o), "cd: too many arguments\n");
}

#[test]
fn cd_to_missing_directory() {
    let mut shell = standard_shell();
    match shell.run_command(&first("cd /no/such/dir"), None) {
        Action::ChangeDir(p) => {
            assert_eq!(p, "/no/such/dir");
            let o = cd_failed(&p);
            assert_eq!(text(&o), "cd: /no/such/dir: No such file or directory\n");
            assert_eq!(o.code, 1);
            assert!(!o.exit);
        }
        _ => panic!("expected a change of directory"),
    }
}

#[test]
fn home_is_expanded() {
    assert_eq!(home_expanded("~/src", "/home/u"), "/home/u/src");
    assert_eq!(home_expanded("~", "/home/u"), "/home/u");
    assert_eq!(home_expanded("a/~", "/home/u"), "a/~");
    assert_eq!(home_expanded("", "/home/u"), "");
}

#[test]
fn pwd_is_asked_of_the_caller() {
    let mut shell = standard_shell();
    assert!(matches!(shell.run_command(&first("pwd"), None), Action::PrintDir));
    let o = pwd_output("/tmp");
    assert_eq!(text(&o), "/tmp\n");
    assert_eq!(o.code, 0);
}

#[test]
fn unknown_program_is_external() {
    let mut shell = standard_shell();
    match shell.run_command(&first("ls -l x"), Some(b"in".to_vec())) {
        Action::External(input) => {
            assert_eq!(input.program, "ls");
            assert_eq!(input.arguments, vec!["-l".to_string(), "x".to_string()]);
            assert_eq!(input.stdin, Some(b"in".to_vec()));
        }
        _ => panic!("expected an external program"),
    }
}

#[test]
fn lookup_is_exact() {
    let mut shell = standard_shell();
    assert!(matches!(shell.run_command(&first("Echo x"), None), Action::External(_)));
    assert!(matches!(shell.run_command(&first("ech"), None), Action::External(_)));
}

#[test]
fn later_registration_wins() {
    let mut shell = Shell::new();
    shell.register_command("x", Builtin::Pwd);
    shell.register_command("x", Builtin::Exit);
    let o = done(shell.run_command(&first("x"), None));
    assert!(o.exit);
}

#[test]
fn external_not_found_message() {
    let o = not_found("frob");
    assert_eq!(text(&o), "frob: not found\n");
    assert_eq!(o.code, 127);
}

#[test]
fn output_constructors() {
    let o = Output::exit(3);
    assert!(o.exit && o.code == 3 && o.stdout.is_none());
    let o = Output::empty(2);
    assert!(!o.exit && o.code == 2 && o.stdout.is_none());
    let o = Output::with_output(5, vec![1, 2]);
    assert_eq!(o.stdout, Some(vec![1, 2]));
    assert_eq!(o.code, 5);
    let o = Output::with_string_output(0, "é");
    assert_eq!(o.stdout, Some("é".as_bytes().to_vec()));
}

#[test]
fn input_copies_the_stage() {
    let c = first("prog a b");
    let i = Input::new(&c, Some(vec![7]));
    assert_eq!(i.program, "prog");
    assert_eq!(i.arguments, c.arguments);
    assert_eq!(i.stdin, Some(vec![7]));
}

#[test]
fn missing_directory_is_skipped() {
    let c = candidates("/nonexistent_dir_xyz:/usr/bin", "ls");
    assert_eq!(c, vec!["/nonexistent_dir_xyz/ls".to_string(), "/usr/bin/ls".to_string()]);
    assert_eq!(resolve(&c, &vec![false, true]), Some("/usr/bin/ls".to_string()));
}

#[test]
fn search_finds_nothing() {
    let c = candidates("/a:/b", "p");
    assert_eq!(resolve(&c, &vec![false, false]), None);
    assert_eq!(resolve(&c, &vec![]), None);
}

#[test]
fn search_takes_the_first() {
    let c = candidates("/a:/b", "p");
    assert_eq!(resolve(&c, &vec![true]), Some("/a/p".to_string()));
}

#[test]
fn search_list_fields() {
    assert_eq!(search_dirs(""), vec![String::new()]);
    assert_eq!(search_dirs("/a::/b"), vec!["/a".to_string(), String::new(), "/b".to_string()]);
    assert_eq!(search_dirs("/a:"), vec!["/a".to_string(), String::new()]);
}

#[test]
fn joining_paths() {
    assert_eq!(join("/bin", "ls"), "/bin/ls");
    assert_eq!(join("/bin/", "ls"), "/bin/ls");
    assert_eq!(join("", "ls"), "ls");
    assert_eq!(join("/bin", "/usr/bin/ls"), "/usr/bin/ls");
}

#[test]
fn failed_stage_abandons_the_line() {
    let mut run = Pipeline::new(3);
    run.next_stage().unwrap();
    run.complete(Output::with_output(0, b"x".to_vec()));
    run.next_stage().unwrap();
    run.fail(minishell::errors::Error::IO(std::io::Error::new(
        std::io::ErrorKind::PermissionDenied,
        "denied",
    )));
    assert!(run.next_stage().is_none());
    match run.finish() {
        Err(minishell::errors::Error::IO(e)) => {
            assert_eq!(e.kind(), std::io::ErrorKind::PermissionDenied)
        }
        Ok(_) => panic!("the line was expected to fail"),
    }
}
