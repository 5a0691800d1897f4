//! The tokenizer: one input line becomes an ordered list of pipeline stages.
use vstd::prelude::*;
use crate::text::{chars_of, push_char};

verus! {

/// One `NAME=value` assignment written before a stage's program.
#[derive(Debug, PartialEq, Eq)]
pub struct Variable(pub String, pub String);

/// One pipeline stage.
#[derive(Debug, PartialEq, Eq)]
pub struct Command {
    /// The stage reads the previous stage's output.
    pub pipe: bool,
    pub program: String,
    pub arguments: Vec<String>,
    pub variables: Vec<Variable>,
}

/// What a stage is, as text.
pub struct CommandView {
    pub pipe: bool,
    pub program: Seq<char>,
    pub arguments: Seq<Seq<char>>,
    pub variables: Seq<(Seq<char>, Seq<char>)>,
}

impl View for Variable {
    type V = (Seq<char>, Seq<char>);

    open spec fn view(&self) -> (Seq<char>, Seq<char>) {
        (self.0@, self.1@)
    }
}

pub open spec fn strings_view(v: Seq<String>) -> Seq<Seq<char>> {
    v.map_values(|s: String| s@)
}

pub open spec fn variables_view(v: Seq<Variable>) -> Seq<(Seq<char>, Seq<char>)> {
    v.map_values(|x: Variable| x@)
}

impl View for Command {
    type V = CommandView;

    open spec fn view(&self) -> CommandView {
        CommandView {
            pipe: self.pipe,
            program: self.program@,
            arguments: strings_view(self.arguments@),
            variables: variables_view(self.variables@),
        }
    }
}

pub open spec fn commands_view(v: Seq<Command>) -> Seq<CommandView> {
    v.map_values(|c: Command| c@)
}

/// Ends a word outside quotes (and, for `|` and newline, a stage's arguments).
pub open spec fn is_separator(c: char) -> bool {
    c == ' ' || c == '\n' || c == '|'
}

pub open spec fn is_quote(c: char) -> bool {
    c == '\'' || c == '"'
}

/// Reads a word from position `i` of `s`, with the quote `open` still open and
/// `acc` read so far; gives the word and the position just after it.
///
/// A quote opens a literal region that only the same quote character closes;
/// outside quotes the word ends before a separator or at the end of the line,
/// which also ends an unterminated quote.
pub open spec fn scan_word(s: Seq<char>, i: int, open: Option<char>, acc: Seq<char>) -> (Seq<
    char,
>, int)
    decreases s.len() - i,
{
    if i < 0 || i >= s.len() {
        (acc, i)
    } else {
        let c = s[i];
        if is_quote(c) && open is None {
            scan_word(s, i + 1, Some(c), acc)
        } else {
            let closes = is_quote(c) && open == Some(c);
            let open2 = if closes {
                None
            } else {
                open
            };
            let acc2 = if closes {
                acc
            } else {
                acc.push(c)
            };
            if open2 is None && (i + 1 >= s.len() || is_separator(s[i + 1])) {
                (acc2, i + 1)
            } else {
                scan_word(s, i + 1, open2, acc2)
            }
        }
    }
}

/// The word that starts at position `i`, and where it ends.
pub open spec fn word_at(s: Seq<char>, i: int) -> (Seq<char>, int) {
    scan_word(s, i, None, Seq::empty())
}

pub proof fn lemma_scan_word_advances(s: Seq<char>, i: int, open: Option<char>, acc: Seq<char>)
    requires
        0 <= i,
    ensures
        i <= scan_word(s, i, open, acc).1 <= s.len() || (i >= s.len() && scan_word(
            s,
            i,
            open,
            acc,
        ).1 == i),
        i < s.len() ==> i < scan_word(s, i, open, acc).1,
    decreases s.len() - i,
{
    if i < s.len() {
        let c = s[i];
        if is_quote(c) && open is None {
            lemma_scan_word_advances(s, i + 1, Some(c), acc);
        } else {
            let closes = is_quote(c) && open == Some(c);
            let open2 = if closes {
                None
            } else {
                open
            };
            let acc2 = if closes {
                acc
            } else {
                acc.push(c)
            };
            lemma_scan_word_advances(s, i + 1, open2, acc2);
        }
    }
}

/// The arguments of a stage read from position `i`: words separated by spaces,
/// up to a `|`, a newline or the end of the line (which is not consumed).
pub open spec fn scan_args(s: Seq<char>, i: int) -> (Seq<Seq<char>>, int)
    decreases s.len() - i,
{
    if i < 0 || i >= s.len() {
        (Seq::empty(), i)
    } else if s[i] == '|' || s[i] == '\n' {
        (Seq::empty(), i)
    } else if s[i] == ' ' {
        scan_args(s, i + 1)
    } else {
        let (w, j) = word_at(s, i);
        proof {
            lemma_scan_word_advances(s, i, None, Seq::empty());
        }
        let (rest, k) = scan_args(s, j);
        (seq![w] + rest, k)
    }
}

pub proof fn lemma_scan_args_advances(s: Seq<char>, i: int)
    requires
        0 <= i <= s.len(),
    ensures
        i <= scan_args(s, i).1 <= s.len(),
    decreases s.len() - i,
{
    if i < s.len() && !(s[i] == '|' || s[i] == '\n') {
        if s[i] == ' ' {
            lemma_scan_args_advances(s, i + 1);
        } else {
            lemma_scan_word_advances(s, i, None, Seq::empty());
            lemma_scan_args_advances(s, word_at(s, i).1);
        }
    }
}

/// A stage with the given parts.
pub open spec fn stage(
    pipe: bool,
    program: Seq<char>,
    arguments: Seq<Seq<char>>,
    variables: Seq<(Seq<char>, Seq<char>)>,
) -> CommandView {
    CommandView { pipe, program, arguments, variables }
}

/// Reads the rest of a line from position `i`, given the first word read so
/// far (`buf`, with the quote `open` still open), the assignments `vars` and
/// the pipe flag of the stage under way, and the stages `done` so far.
///
/// While a stage has no program, its first word is read with the quoting of
/// every word. Outside quotes: a space or newline after a non-empty first word
/// makes it the program and reads the arguments; a `|` after a non-empty first
/// word makes it a program without arguments and marks the next stage as
/// piped; other spaces and newlines are skipped; any other `|` marks the stage
/// under way as piped; `=` turns the word into a variable name whose value is
/// the following word. At the end of the line a non-empty first word is a
/// program without arguments.
pub open spec fn scan_line(
    s: Seq<char>,
    i: int,
    buf: Seq<char>,
    open: Option<char>,
    vars: Seq<(Seq<char>, Seq<char>)>,
    pipe: bool,
    done: Seq<CommandView>,
) -> Seq<CommandView>
    decreases s.len() - i,
{
    if i < 0 || i >= s.len() {
        if buf.len() > 0 {
            done.push(stage(pipe, buf, Seq::empty(), vars))
        } else {
            done
        }
    } else {
        let c = s[i];
        if open is Some {
            if open == Some(c) {
                scan_line(s, i + 1, buf, None, vars, pipe, done)
            } else {
                scan_line(s, i + 1, buf.push(c), open, vars, pipe, done)
            }
        } else if is_quote(c) {
            scan_line(s, i + 1, buf, Some(c), vars, pipe, done)
        } else if (c == ' ' || c == '\n') && buf.len() > 0 {
            let (args, j) = scan_args(s, i + 1);
            proof {
                lemma_scan_args_advances(s, i + 1);
            }
            scan_line(
                s,
                j,
                Seq::empty(),
                None,
                Seq::empty(),
                false,
                done.push(stage(pipe, buf, args, vars)),
            )
        } else if c == '|' && buf.len() > 0 {
            scan_line(
                s,
                i + 1,
                Seq::empty(),
                None,
                Seq::empty(),
                true,
                done.push(stage(pipe, buf, Seq::empty(), vars)),
            )
        } else if c == ' ' || c == '\n' {
            scan_line(s, i + 1, buf, open, vars, pipe, done)
        } else if c == '|' {
            scan_line(s, i + 1, buf, open, vars, true, done)
        } else if c == '=' {
            let (value, j) = word_at(s, i + 1);
            proof {
                lemma_scan_word_advances(s, i + 1, None, Seq::empty());
            }
            scan_line(s, j, Seq::empty(), None, vars.push((buf, value)), pipe, done)
        } else {
            scan_line(s, i + 1, buf.push(c), open, vars, pipe, done)
        }
    }
}

/// The stages of a whole line.
pub open spec fn parse_line(s: Seq<char>) -> Seq<CommandView> {
    scan_line(s, 0, Seq::empty(), None, Seq::empty(), false, Seq::empty())
}

fn is_separator_char(c: char) -> (r: bool)
    ensures
        r == is_separator(c),
{
    c == ' ' || c == '\n' || c == '|'
}

fn is_quote_char(c: char) -> (r: bool)
    ensures
        r == is_quote(c),
{
    c == '\'' || c == '"'
}

/// Reads one word at `*pos`, honouring quotes, and moves `*pos` past it.
fn parse_string(chars: &Vec<char>, pos: &mut usize) -> (r: String)
    requires
        *old(pos) <= chars@.len(),
    ensures
        (r@, *final(pos) as int) == word_at(chars@, *old(pos) as int),
{
    let ghost s = chars@;
    let ghost start = *pos as int;
    let mut i: usize = *pos;
    let mut buf = String::new();
    let mut open: Option<char> = None;
    while i < chars.len()
        invariant
            s == chars@,
            i <= s.len(),
            start == *old(pos) as int,
            word_at(s, start) == scan_word(s, i as int, open, buf@),
        decreases s.len() - i,
    {
        let ghost (i0, open0, buf0) = (i as int, open, buf@);
        let c = chars[i];
        i = i + 1;
        if is_quote_char(c) && open.is_none() {
            open = Some(c);
        } else {
            let closes = match open {
                Some(q) => is_quote_char(c) && q == c,
                None => false,
            };
            if closes {
                open = None;
            } else {
                push_char(&mut buf, c);
            }
            if open.is_none() && (i >= chars.len() || is_separator_char(chars[i])) {
                assert(scan_word(s, i0, open0, buf0) == (buf@, i as int));
                *pos = i;
                return buf;
            }
        }
    }
    *pos = i;
    buf
}

/// Reads `NAME=value`'s value at `*pos`; `name` is what preceded the `=`.
fn parse_variable(chars: &Vec<char>, pos: &mut usize, name: String) -> (r: Variable)
    requires
        *old(pos) <= chars@.len(),
    ensures
        r@ == (name@, word_at(chars@, *old(pos) as int).0),
        *final(pos) as int == word_at(chars@, *old(pos) as int).1,
{
    let value = parse_string(chars, pos);
    Variable(name, value)
}

/// Reads a stage's arguments at `*pos`, stopping before `|`, a newline or the
/// end of the line.
fn parse_arguments(chars: &Vec<char>, pos: &mut usize) -> (r: Vec<String>)
    requires
        *old(pos) <= chars@.len(),
    ensures
        (strings_view(r@), *final(pos) as int) == scan_args(chars@, *old(pos) as int),
{
    let ghost s = chars@;
    let ghost start = *pos as int;
    let mut args: Vec<String> = Vec::new();
    while *pos < chars.len() && chars[*pos] != '|' && chars[*pos] != '\n'
        invariant
            s == chars@,
            start <= *pos <= s.len(),
            scan_args(s, start) == ({
                let (rest, k) = scan_args(s, *pos as int);
                (strings_view(args@) + rest, k)
            }),
        decreases s.len() - *pos,
    {
        let c = chars[*pos];
        if c == ' ' {
            *pos = *pos + 1;
        } else {
            let ghost p0 = *pos as int;
            let w = parse_string(chars, pos);
            proof {
                lemma_scan_word_advances(s, p0, None, Seq::empty());
            }
            let ghost old_args = args@;
            args.push(w);
            assert(strings_view(args@) == strings_view(old_args) + seq![w@]);
            assert(strings_view(args@) + scan_args(s, *pos as int).0 == strings_view(old_args) + (
            seq![w@] + scan_args(s, *pos as int).0));
        }
    }
    proof {
        assert(scan_args(s, *pos as int).0 == Seq::<Seq<char>>::empty());
        assert(strings_view(args@) + Seq::<Seq<char>>::empty() == strings_view(args@));
    }
    args
}

/// Splits a line into pipeline stages.
///
/// Words are separated by spaces; quotes make literal regions in every word,
/// the program included; `NAME=value` words before the program are
/// assignments; `|` outside quotes ends a stage and starts a new one that
/// reads the previous one's output. A blank line gives no stage.
pub fn parse(raw_input: String) -> (r: Vec<Command>)
    ensures
        commands_view(r@) == parse_line(raw_input@),
{
    let chars = chars_of(raw_input.as_str());
    let ghost s = chars@;
    let mut commands: Vec<Command> = Vec::new();
    let mut buf = String::new();
    let mut variables: Vec<Variable> = Vec::new();
    let mut should_pipe = false;
    let mut open: Option<char> = None;
    let mut i: usize = 0;
    assert(variables_view(variables@) == Seq::<(Seq<char>, Seq<char>)>::empty());
    assert(commands_view(commands@) == Seq::<CommandView>::empty());
    while i < chars.len()
        invariant
            s == chars@,
            s == raw_input@,
            i <= s.len(),
            parse_line(s) == scan_line(
                s,
                i as int,
                buf@,
                open,
                variables_view(variables@),
                should_pipe,
                commands_view(commands@),
            ),
        decreases s.len() - i,
    {
        let c = chars[i];
        i = i + 1;
        if let Some(q) = open {
            if q == c {
                open = None;
            } else {
                push_char(&mut buf, c);
            }
        } else if is_quote_char(c) {
            open = Some(c);
        } else if (c == ' ' || c == '\n') && !buf.as_str().is_empty() {
            let ghost before = commands_view(commands@);
            proof {
                lemma_scan_args_advances(s, i as int);
            }
            let arguments = parse_arguments(&chars, &mut i);
            let cmd = Command { pipe: should_pipe, program: buf, arguments, variables };
            commands.push(cmd);
            assert(commands_view(commands@) == before.push(cmd@));
            should_pipe = false;
            buf = String::new();
            variables = Vec::new();
            assert(variables_view(variables@) == Seq::<(Seq<char>, Seq<char>)>::empty());
        } else if c == '|' && !buf.as_str().is_empty() {
            let ghost before = commands_view(commands@);
            let cmd = Command { pipe: should_pipe, program: buf, arguments: Vec::new(), variables };
            commands.push(cmd);
            assert(strings_view(cmd.arguments@) == Seq::<Seq<char>>::empty());
            assert(commands_view(commands@) == before.push(cmd@));
            should_pipe = true;
            buf = String::new();
            variables = Vec::new();
            assert(variables_view(variables@) == Seq::<(Seq<char>, Seq<char>)>::empty());
        } else if c == ' ' || c == '\n' {
        } else if c == '|' {
            should_pipe = true;
        } else if c == '=' {
            let ghost vs = variables_view(variables@);
            proof {
                lemma_scan_word_advances(s, i as int, None, Seq::empty());
            }
            let var = parse_variable(&chars, &mut i, buf);
            variables.push(var);
            assert(variables_view(variables@) == vs.push(var@));
            buf = String::new();
        } else {
            push_char(&mut buf, c);
        }
    }
    if !buf.as_str().is_empty() {
        let ghost before = commands_view(commands@);
        let cmd = Command { pipe: should_pipe, program: buf, arguments: Vec::new(), variables };
        commands.push(cmd);
        assert(strings_view(cmd.arguments@) == Seq::<Seq<char>>::empty());
        assert(commands_view(commands@) == before.push(cmd@));
    }
    commands
}


/// Each argument written after a space and between single quotes.
pub open spec fn quoted_args(arguments: Seq<Seq<char>>) -> Seq<char>
    decreases arguments.len(),
{
    if arguments.len() == 0 {
        Seq::empty()
    } else {
        seq![' ', '\''] + arguments[0] + seq!['\''] + quoted_args(arguments.drop_first())
    }
}

/// A stage written back as a line: its program, then its quoted arguments.
pub open spec fn quoted_line(program: Seq<char>, arguments: Seq<Seq<char>>) -> Seq<char> {
    program + quoted_args(arguments)
}

proof fn lemma_quoted_word_rest(s: Seq<char>, q: int, a: Seq<char>, k: int)
    requires
        0 <= q,
        q + a.len() + 2 <= s.len(),
        0 <= k <= a.len(),
        forall|j: int| 0 <= j < a.len() ==> s[q + 1 + j] == a[j],
        s[q + 1 + a.len()] == '\'',
        q + 2 + a.len() == s.len() || s[q + 2 + a.len()] == ' ',
        !a.contains('\''),
    ensures
        scan_word(s, q + 1 + k, Some('\''), a.take(k)) == (a, q + 2 + a.len()),
    decreases a.len() - k,
{
    if k < a.len() {
        assert(s[q + 1 + k] == a[k]);
        assert(a[k] != '\'');
        assert(a.take(k).push(a[k]) == a.take(k + 1));
        lemma_quoted_word_rest(s, q, a, k + 1);
    } else {
        assert(a.take(k) == a);
    }
}

proof fn lemma_quoted_args(s: Seq<char>, i: int, arguments: Seq<Seq<char>>)
    requires
        0 <= i <= s.len(),
        s.subrange(i, s.len() as int) == quoted_args(arguments),
        forall|j: int| 0 <= j < arguments.len() ==> !arguments[j].contains('\''),
    ensures
        scan_args(s, i) == (arguments, s.len() as int),
    decreases arguments.len(),
{
    let t = quoted_args(arguments);
    if arguments.len() == 0 {
        assert(s.subrange(i, s.len() as int).len() == 0);
        assert(arguments == Seq::<Seq<char>>::empty());
    } else {
        let a = arguments[0];
        let rest = arguments.drop_first();
        let n = a.len() as int;
        let tr = quoted_args(rest);
        assert(t == seq![' ', '\''] + a + seq!['\''] + tr);
        assert(t.len() == n + 3 + tr.len());
        assert forall|k: int| 0 <= k < t.len() implies s[i + k] == t[k] by {
            assert(s.subrange(i, s.len() as int)[k] == s[i + k]);
        }
        assert(s[i] == t[0]);
        assert(s[i + 1] == t[1]);
        assert forall|j: int| 0 <= j < n implies s[i + 1 + 1 + j] == a[j] by {
            assert(s[i + 2 + j] == t[2 + j]);
        }
        assert(s[i + 2 + n] == t[2 + n]);
        assert(s.subrange(i + 3 + n, s.len() as int) == tr) by {
            assert(t.subrange(3 + n, t.len() as int) == tr);
        }
        if rest.len() > 0 {
            assert(tr[0] == ' ');
            assert(s[i + 3 + n] == tr[0]);
        } else {
            assert(tr.len() == 0);
        }
        lemma_quoted_word_rest(s, i + 1, a, 0);
        assert(a.take(0) == Seq::<char>::empty());
        assert(word_at(s, i + 1) == (a, i + 3 + n));
        assert forall|j: int| 0 <= j < rest.len() implies !rest[j].contains('\'') by {
            assert(rest[j] == arguments[j + 1]);
        }
        lemma_quoted_args(s, i + 3 + n, rest);
        assert(seq![a] + rest == arguments);
        assert(scan_args(s, i + 1) == (arguments, s.len() as int));
        assert(scan_args(s, i) == scan_args(s, i + 1));
    }
}

proof fn lemma_program_prefix(s: Seq<char>, p: Seq<char>, k: int)
    requires
        p.len() <= s.len(),
        0 <= k <= p.len(),
        forall|j: int|
            0 <= j < p.len() ==> s[j] == p[j] && !is_separator(p[j]) && !is_quote(p[j]) && p[j]
                != '=',
    ensures
        scan_line(s, k, p.take(k), None, Seq::empty(), false, Seq::empty()) == scan_line(
            s,
            p.len() as int,
            p,
            None,
            Seq::empty(),
            false,
            Seq::empty(),
        ),
    decreases p.len() - k,
{
    if k < p.len() {
        assert(p.take(k).push(p[k]) == p.take(k + 1));
        lemma_program_prefix(s, p, k + 1);
    } else {
        assert(p.take(k) == p);
    }
}

/// Reading back a stage written as its program followed by its arguments,
/// each in single quotes after a space, gives that stage again: the same
/// program and arguments, no assignment, not piped. The program must be a
/// plain word (no space, newline, `|`, quote or `=`) and no argument may hold
/// a single quote.
pub proof fn law_quoted_line_round_trip(program: Seq<char>, arguments: Seq<Seq<char>>)
    requires
        program.len() > 0,
        forall|j: int|
            0 <= j < program.len() ==> !is_separator(program[j]) && !is_quote(program[j])
                && program[j] != '=',
        forall|j: int| 0 <= j < arguments.len() ==> !arguments[j].contains('\''),
    ensures
        parse_line(quoted_line(program, arguments)) == seq![
            stage(false, program, arguments, Seq::empty()),
        ],
{
    let s = quoted_line(program, arguments);
    let n = program.len() as int;
    assert forall|j: int| 0 <= j < n implies s[j] == program[j] by {}
    lemma_program_prefix(s, program, 0);
    assert(program.take(0) == Seq::<char>::empty());
    assert(s.subrange(n as int, s.len() as int) == quoted_args(arguments));
    let done = seq![stage(false, program, arguments, Seq::empty())];
    assert(Seq::<CommandView>::empty().push(stage(false, program, arguments, Seq::empty()))
        == done);
    if arguments.len() == 0 {
        assert(arguments == Seq::<Seq<char>>::empty());
        assert(s.len() == n);
    } else {
        assert(s[n as int] == ' ');
        lemma_quoted_args(s, n as int, arguments);
        assert(scan_args(s, n + 1) == (arguments, s.len() as int));
        assert(scan_line(s, n, program, None, Seq::empty(), false, Seq::empty()) == scan_line(
            s,
            s.len() as int,
            Seq::empty(),
            None,
            Seq::empty(),
            false,
            done,
        ));
    }
}

} // verus!
