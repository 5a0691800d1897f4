use minishell::command::{parse, Command, Variable};

fn words(v: &[&str]) -> Vec<String> {
    v.iter().map(|s| s.to_string()).collect()
}

fn var(name: &str, value: &str) -> Variable {
    Variable(name.to_string(), value.to_string())
}

#[test]
fn quoted_argument_keeps_its_space() {
    let cmds = parse("echo 'a b' c".to_string());
    assert_eq!(cmds.len(), 1);
    assert_eq!(cmds[0].program, "echo");
    assert_eq!(cmds[0].arguments, words(&["a b", "c"]));
    assert!(cmds[0].variables.is_empty());
    assert!(!cmds[0].pipe);
}

#[test]
fn assignments_before_program() {
    let cmds = parse("FOO=bar BAZ=qux ls".to_string());
    assert_eq!(cmds.len(), 1);
    assert_eq!(cmds[0].program, "ls");
    assert!(cmds[0].arguments.is_empty());
    assert_eq!(cmds[0].variables, vec![var("FOO", "bar"), var("BAZ", "qux")]);
}

#[test]
fn pipe_makes_two_stages() {
    let cmds = parse("echo hi | cat".to_string());
    assert_eq!(cmds.len(), 2);
    assert_eq!(cmds[0].program, "echo");
    assert_eq!(cmds[0].arguments, words(&["hi"]));
    assert!(!cmds[0].pipe);
    assert_eq!(cmds[1].program, "cat");
    assert!(cmds[1].pipe);
    assert!(cmds[1].arguments.is_empty());
}

#[test]
fn pipe_with_newline_at_end() {
    let cmds = parse("echo hi | cat\n".to_string());
    assert_eq!(cmds.len(), 2);
    assert_eq!(cmds[1].program, "cat");
    assert!(cmds[1].pipe);
}

#[test]
fn blank_lines_give_no_stage() {
    assert!(parse(String::new()).is_empty());
    assert!(parse("   \n".to_string()).is_empty());
    assert!(parse("\n".to_string()).is_empty());
}

#[test]
fn runs_of_spaces_collapse() {
    let cmds = parse("  ls    -l   a  \n".to_string());
    assert_eq!(cmds.len(), 1);
    assert_eq!(cmds[0].program, "ls");
    assert_eq!(cmds[0].arguments, words(&["-l", "a"]));
}

#[test]
fn adjacent_quotes_make_one_word() {
    let cmds = parse("echo 'ab'\"cd\" e".to_string());
    assert_eq!(cmds[0].arguments, words(&["abcd", "e"]));
}

#[test]
fn other_quote_is_literal_inside_quotes() {
    let cmds = parse("echo \"it's\" 'say \"hi\"'".to_string());
    assert_eq!(cmds[0].arguments, words(&["it's", "say \"hi\""]));
}

#[test]
fn unterminated_quote_takes_the_rest() {
    let cmds = parse("echo 'a b | c".to_string());
    assert_eq!(cmds.len(), 1);
    assert_eq!(cmds[0].arguments, words(&["a b | c"]));
}

#[test]
fn trailing_pipe_adds_no_stage() {
    let cmds = parse("echo hi |".to_string());
    assert_eq!(cmds.len(), 1);
    assert_eq!(cmds[0].program, "echo");
    assert_eq!(cmds[0].arguments, words(&["hi"]));
}

#[test]
fn pipe_right_after_program_ends_the_stage() {
    let cmds = parse("echo|cat x".to_string());
    assert_eq!(cmds.len(), 2);
    assert_eq!(cmds[0].program, "echo");
    assert!(cmds[0].arguments.is_empty());
    assert!(!cmds[0].pipe);
    assert_eq!(cmds[1].program, "cat");
    assert_eq!(cmds[1].arguments, words(&["x"]));
    assert!(cmds[1].pipe);
}

#[test]
fn pipe_without_spaces() {
    for line in ["ls|cat\n", "ls|cat"] {
        let cmds = parse(line.to_string());
        assert_eq!(cmds.len(), 2);
        assert_eq!(cmds[0].program, "ls");
        assert!(cmds[0].arguments.is_empty());
        assert!(!cmds[0].pipe);
        assert_eq!(cmds[1].program, "cat");
        assert!(cmds[1].pipe);
    }
}

#[test]
fn quoted_program_name() {
    let cmds = parse("'my prog' x\n".to_string());
    assert_eq!(cmds.len(), 1);
    assert_eq!(cmds[0].program, "my prog");
    assert_eq!(cmds[0].arguments, words(&["x"]));
    let cmds = parse("\"a=b\"'|c' d".to_string());
    assert_eq!(cmds.len(), 1);
    assert_eq!(cmds[0].program, "a=b|c");
    assert!(cmds[0].variables.is_empty());
    assert_eq!(cmds[0].arguments, words(&["d"]));
}

#[test]
fn quoted_program_then_pipe() {
    let cmds = parse("'ls'|cat".to_string());
    assert_eq!(cmds.len(), 2);
    assert_eq!(cmds[0].program, "ls");
    assert_eq!(cmds[1].program, "cat");
    assert!(cmds[1].pipe);
}

#[test]
fn quoted_assignment_value() {
    let cmds = parse("A='x y' env\n".to_string());
    assert_eq!(cmds.len(), 1);
    assert_eq!(cmds[0].program, "env");
    assert_eq!(cmds[0].variables, vec![var("A", "x y")]);
}

#[test]
fn three_stages() {
    let cmds = parse("a 1 | b 2 | c\n".to_string());
    assert_eq!(cmds.len(), 3);
    assert_eq!(cmds[2].program, "c");
    assert!(cmds[1].pipe && cmds[2].pipe);
    assert_eq!(cmds[1].arguments, words(&["2"]));
}

#[test]
fn quoted_line_reads_back_as_the_same_stage() {
    let program = "grep";
    let args = ["a b", "", "x\"y", "|=", "tab\there"];
    let mut line = program.to_string();
    for a in args.iter() {
        line.push_str(" '");
        line.push_str(a);
        line.push('\'');
    }
    let cmds = parse(line);
    let expected = Command {
        pipe: false,
        program: program.to_string(),
        arguments: words(&args),
        variables: vec![],
    };
    assert_eq!(cmds, vec![expected]);
}

#[test]
fn non_ascii_text() {
    let cmds = parse("échø 'naïve ü' ß\n".to_string());
    assert_eq!(cmds[0].program, "échø");
    assert_eq!(cmds[0].arguments, words(&["naïve ü", "ß"]));
}
