//! What a stage receives and produces, and the builtin handlers.
use vstd::prelude::*;
use vstd::utf8::encode_utf8;
use crate::command::{strings_view, Command};
use crate::errors::Error;
use crate::text::push_char;

verus! {

/// What the interpreter keeps from line to line.
pub struct State {
    /// Every name registered as a builtin, in the order of registration.
    pub builtin_commands: Vec<String>,
}

/// What a stage is given.
pub struct Input {
    /// `None` for the first stage of a pipeline, else what the stage before
    /// it wrote.
    pub stdin: Option<Vec<u8>>,
    pub program: String,
    pub arguments: Vec<String>,
}

/// What a stage produces.
pub struct Output {
    /// The whole process is to end with `code`.
    pub exit: bool,
    pub code: i32,
    pub stdout: Option<Vec<u8>>,
}

pub struct OutputView {
    pub exit: bool,
    pub code: i32,
    pub stdout: Option<Seq<u8>>,
}

pub open spec fn bytes_view(b: Option<Vec<u8>>) -> Option<Seq<u8>> {
    match b {
        Some(v) => Some(v@),
        None => None,
    }
}

impl View for Output {
    type V = OutputView;

    open spec fn view(&self) -> OutputView {
        OutputView { exit: self.exit, code: self.code, stdout: bytes_view(self.stdout) }
    }
}

/// An output that carries the text `msg`, encoded as UTF-8.
pub open spec fn text_output(code: i32, msg: Seq<char>) -> OutputView {
    OutputView { exit: false, code, stdout: Some(encode_utf8(msg)) }
}

fn clone_strings(v: &Vec<String>) -> (r: Vec<String>)
    ensures
        r@ == v@,
{
    let mut r: Vec<String> = Vec::new();
    let mut i: usize = 0;
    while i < v.len()
        invariant
            i <= v@.len(),
            r@ == v@.subrange(0, i as int),
        decreases v@.len() - i,
    {
        r.push(v[i].clone());
        i = i + 1;
    }
    r
}

impl Input {
    /// The input of the stage `cmd`, reading `stdin`.
    pub fn new(cmd: &Command, stdin: Option<Vec<u8>>) -> (r: Input)
        ensures
            r.stdin == stdin,
            r.program@ == cmd.program@,
            r.arguments@ == cmd.arguments@,
    {
        Input { stdin: stdin, program: cmd.program.clone(), arguments: clone_strings(&cmd.arguments) }
    }
}

impl Output {
    /// Ends the process with `code`.
    pub fn exit(code: i32) -> (r: Output)
        ensures
            r@ == (OutputView { exit: true, code, stdout: None }),
    {
        Output { exit: true, code: code, stdout: None }
    }

    /// Nothing written.
    pub fn empty(code: i32) -> (r: Output)
        ensures
            r@ == (OutputView { exit: false, code, stdout: None }),
    {
        Output { exit: false, code: code, stdout: None }
    }

    /// The bytes `out` written.
    pub fn with_output(code: i32, out: Vec<u8>) -> (r: Output)
        ensures
            r@ == (OutputView { exit: false, code, stdout: Some(out@) }),
    {
        Output { exit: false, code: code, stdout: Some(out) }
    }

    /// The text `out` written.
    pub fn with_string_output(code: i32, out: &str) -> (r: Output)
        ensures
            r@ == text_output(code, out@),
    {
        Output { exit: false, code: code, stdout: Some(out.as_bytes_vec()) }
    }
}

/// What a builtin asks of its caller to finish a stage.
pub enum Action {
    /// The stage is over, with this result.
    Done(Result<Output, Error>),
    /// `cd`: change the working directory to this argument, after `~` is
    /// expanded by `home_expanded`; then `cd_failed` tells what a missing
    /// directory gives.
    ChangeDir(String),
    /// `pwd`: the working directory, written by `pwd_output`.
    PrintDir,
    /// `type` of a name that is no builtin: search the search list for it,
    /// then `type_found` tells the result.
    Locate(String),
    /// Not a builtin: run the program named in the input.
    External(Input),
}

/// What `exit` gives: the end of the process with code 0.
pub open spec fn exit_reply(r: Result<Output, Error>) -> bool {
    r matches Ok(o) && o@ == (OutputView { exit: true, code: 0, stdout: None })
}

/// `exit`: ends the process with code 0, whatever the arguments.
pub fn exit(state: &mut State, input: Input) -> (r: Result<Output, Error>)
    ensures
        *final(state) == *old(state),
        exit_reply(r),
{
    Ok(Output::exit(0))
}

/// The arguments joined by single spaces.
pub open spec fn joined(args: Seq<Seq<char>>) -> Seq<char>
    decreases args.len(),
{
    if args.len() == 0 {
        Seq::empty()
    } else if args.len() == 1 {
        args[0]
    } else {
        joined(args.drop_last()).push(' ') + args.last()
    }
}

/// What `echo` gives for the arguments `args`.
pub open spec fn echo_reply(args: Seq<String>, r: Result<Output, Error>) -> bool {
    r matches Ok(o) && o@ == text_output(0, joined(strings_view(args)).push('\n'))
}

/// `echo`: the arguments joined by single spaces, then a newline.
pub fn echo(state: &mut State, input: Input) -> (r: Result<Output, Error>)
    ensures
        *final(state) == *old(state),
        echo_reply(input.arguments@, r),
{
    let args = input.arguments;
    let ghost a = strings_view(args@);
    let mut msg = String::new();
    let mut i: usize = 0;
    while i < args.len()
        invariant
            a == strings_view(args@),
            i <= args@.len(),
            msg@ == joined(a.subrange(0, i as int)),
        decreases args@.len() - i,
    {
        let ghost before = msg@;
        if i > 0 {
            push_char(&mut msg, ' ');
        }
        msg.append(args[i].as_str());
        proof {
            let t = a.subrange(0, i + 1);
            assert(t.drop_last() == a.subrange(0, i as int));
            if i == 0 {
                assert(before == Seq::<char>::empty());
                assert(msg@ == t[0]);
            }
        }
        i = i + 1;
    }
    assert(a.subrange(0, args@.len() as int) == a);
    push_char(&mut msg, '\n');
    Ok(Output::with_string_output(0, msg.as_str()))
}

/// `name` is registered as a builtin.
pub open spec fn is_builtin(state: &State, name: Seq<char>) -> bool {
    strings_view(state.builtin_commands@).contains(name)
}

fn contains_name(names: &Vec<String>, name: &String) -> (r: bool)
    ensures
        r == strings_view(names@).contains(name@),
{
    let ghost v = strings_view(names@);
    let mut i: usize = 0;
    while i < names.len()
        invariant
            v == strings_view(names@),
            i <= names@.len(),
            forall|j: int| 0 <= j < i ==> v[j] != name@,
        decreases names@.len() - i,
    {
        if names[i] == *name {
            assert(v[i as int] == name@);
            return true;
        }
        i = i + 1;
    }
    false
}

/// What `type` asks or gives for the arguments `args`: a usage error unless
/// there is exactly one; the answer for a builtin; else a search for it.
pub open spec fn type_reply(state: &State, args: Seq<String>, r: Action) -> bool {
    if args.len() != 1 {
        r matches Action::Done(Ok(o)) && o@ == text_output(1, "type expects 1 argument\n"@)
    } else if is_builtin(state, args[0]@) {
        r matches Action::Done(Ok(o)) && o@ == text_output(0, args[0]@ + " is a shell builtin\n"@)
    } else {
        r matches Action::Locate(name) && name@ == args[0]@
    }
}

/// `type NAME`: says whether `NAME` is a builtin; for any other name the
/// caller searches the search list.
pub fn type_cmd(state: &mut State, input: Input) -> (r: Action)
    ensures
        *final(state) == *old(state),
        type_reply(&*old(state), input.arguments@, r),
{
    let args = input.arguments;
    if args.len() != 1 {
        return Action::Done(Ok(Output::with_string_output(1, "type expects 1 argument\n")));
    }
    let command = &args[0];
    if contains_name(&state.builtin_commands, command) {
        let mut msg = command.clone();
        msg.append(" is a shell builtin\n");
        return Action::Done(Ok(Output::with_string_output(0, msg.as_str())));
    }
    Action::Locate(command.clone())
}

/// The end of `type NAME` for a name that is no builtin, given where the
/// search list has it, if anywhere.
pub fn type_found(name: &str, location: Option<String>) -> (r: Output)
    ensures
        location is None ==> r@ == text_output(1, name@ + ": not found\n"@),
        location matches Some(p) ==> r@ == text_output(0, name@ + " is "@ + p@ + "\n"@),
{
    match location {
        None => {
            let mut msg = String::from_str(name);
            msg.append(": not found\n");
            Output::with_string_output(1, msg.as_str())
        },
        Some(p) => {
            let mut msg = String::from_str(name);
            msg.append(" is ");
            msg.append(p.as_str());
            msg.append("\n");
            Output::with_string_output(0, msg.as_str())
        },
    }
}

/// What `cd` asks or gives for the arguments `args`: a usage error unless
/// there is exactly one, else the change to that directory.
pub open spec fn cd_reply(args: Seq<String>, r: Action) -> bool {
    if args.len() != 1 {
        r matches Action::Done(Ok(o)) && o@ == text_output(1, "cd: too many arguments\n"@)
    } else {
        r matches Action::ChangeDir(p) && p@ == args[0]@
    }
}

/// `cd`: takes exactly one argument, the directory to change to.
pub fn cd(state: &mut State, input: Input) -> (r: Action)
    ensures
        *final(state) == *old(state),
        cd_reply(input.arguments@, r),
{
    let args = input.arguments;
    if args.len() != 1 {
        return Action::Done(Ok(Output::with_string_output(1, "cd: too many arguments\n")));
    }
    Action::ChangeDir(args[0].clone())
}

/// `path` with a leading `~` replaced by `home`.
pub open spec fn expand_home(path: Seq<char>, home: Seq<char>) -> Seq<char> {
    if path.len() > 0 && path[0] == '~' {
        home + path.drop_first()
    } else {
        path
    }
}

/// The directory `cd` goes to, before it is taken relative to the working
/// directory: a leading `~` stands for `home`.
pub fn home_expanded(path: &str, home: &str) -> (r: String)
    ensures
        r@ == expand_home(path@, home@),
{
    let n = path.unicode_len();
    if n > 0 && path.get_char(0) == '~' {
        let mut r = String::from_str(home);
        r.append(path.substring_char(1, n));
        r
    } else {
        String::from_str(path)
    }
}

/// What `cd` gives when the directory `full_path` does not exist; the working
/// directory stays as it was.
pub fn cd_failed(full_path: &str) -> (r: Output)
    ensures
        r@ == text_output(1, "cd: "@ + full_path@ + ": No such file or directory\n"@),
{
    let mut msg = String::from_str("cd: ");
    msg.append(full_path);
    msg.append(": No such file or directory\n");
    Output::with_string_output(1, msg.as_str())
}

/// What `pwd` gives for the working directory `dir`.
pub fn pwd_output(dir: &str) -> (r: Output)
    ensures
        r@ == text_output(0, dir@.push('\n')),
{
    let mut msg = String::from_str(dir);
    push_char(&mut msg, '\n');
    Output::with_string_output(0, msg.as_str())
}

/// What a stage gives when `program` is neither a builtin nor on the search
/// list.
pub fn not_found(program: &str) -> (r: Output)
    ensures
        r@ == text_output(127, program@ + ": not found\n"@),
{
    let mut msg = String::from_str(program);
    msg.append(": not found\n");
    Output::with_string_output(127, msg.as_str())
}

} // verus!
