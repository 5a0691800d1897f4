//! The builtin registry: names mapped to handlers, and the dispatch of one
//! stage to a builtin or to an external program.
use vstd::prelude::*;
use crate::command::{strings_view, Command};
use crate::shell::{
    cd, cd_reply, echo, echo_reply, exit, exit_reply, type_cmd, type_reply, Action, Input, State,
};

verus! {

/// The builtin handlers.
#[derive(Debug, Clone, Copy, PartialEq, Eq, Structural)]
pub enum Builtin {
    Cd,
    Pwd,
    Echo,
    Exit,
    Type,
}

/// The handler registered last under `name`, if any; `names[i]` was
/// registered with `handlers[i]`.
pub open spec fn handler_for(
    names: Seq<Seq<char>>,
    handlers: Seq<Builtin>,
    name: Seq<char>,
) -> Option<Builtin>
    decreases handlers.len(),
{
    if handlers.len() == 0 || names.len() == 0 {
        None
    } else if names.last() == name {
        Some(handlers.last())
    } else {
        handler_for(names.drop_last(), handlers.drop_last(), name)
    }
}

/// The interpreter: its state and its builtin handlers.
pub struct Shell {
    pub state: State,
    /// `runners[i]` handles the name `state.builtin_commands[i]`.
    pub runners: Vec<Builtin>,
}

/// What the stage `cmd`, reading `stdin`, asks or gives when `handler` is the
/// builtin registered under its program's name.
pub open spec fn dispatch(
    state: &State,
    handler: Option<Builtin>,
    cmd: &Command,
    stdin: Option<Vec<u8>>,
    r: Action,
) -> bool {
    match handler {
        None => r matches Action::External(input) && input.program@ == cmd.program@
            && input.arguments@ == cmd.arguments@ && input.stdin == stdin,
        Some(Builtin::Cd) => cd_reply(cmd.arguments@, r),
        Some(Builtin::Pwd) => r is PrintDir,
        Some(Builtin::Echo) => r matches Action::Done(o) && echo_reply(cmd.arguments@, o),
        Some(Builtin::Exit) => r matches Action::Done(o) && exit_reply(o),
        Some(Builtin::Type) => type_reply(state, cmd.arguments@, r),
    }
}

impl Shell {
    /// Every builtin name has its handler.
    pub open spec fn wf(&self) -> bool {
        self.runners@.len() == self.state.builtin_commands@.len()
    }

    pub open spec fn names(&self) -> Seq<Seq<char>> {
        strings_view(self.state.builtin_commands@)
    }

    /// The handler that runs a stage whose program is `name`.
    pub open spec fn handler(&self, name: Seq<char>) -> Option<Builtin> {
        handler_for(self.names(), self.runners@, name)
    }

    /// An interpreter with no builtin.
    pub fn new() -> (r: Shell)
        ensures
            r.wf(),
            r.names() == Seq::<Seq<char>>::empty(),
            forall|n: Seq<char>| r.handler(n) is None,
    {
        let r = Shell { state: State { builtin_commands: Vec::new() }, runners: Vec::new() };
        assert(r.names() == Seq::<Seq<char>>::empty());
        r
    }

    /// Registers `runner` under `name`; it replaces any earlier handler of
    /// that name.
    pub fn register_command(&mut self, name: &str, runner: Builtin)
        requires
            old(self).wf(),
        ensures
            final(self).wf(),
            final(self).names() == old(self).names().push(name@),
            final(self).handler(name@) == Some(runner),
            forall|n: Seq<char>| n != name@ ==> final(self).handler(n) == old(self).handler(n),
    {
        let name = String::from_str(name);
        let ghost names0 = self.names();
        let ghost runners0 = self.runners@;
        self.runners.push(runner);
        self.state.builtin_commands.push(name);
        assert(self.names() == names0.push(name@));
        assert(self.names().drop_last() == names0);
        assert(self.runners@.drop_last() == runners0);
    }

    /// The handler of `name`: the last one registered under it.
    fn lookup(&self, name: &String) -> (r: Option<Builtin>)
        requires
            self.wf(),
        ensures
            r == self.handler(name@),
    {
        let ghost names = self.names();
        let ghost handlers = self.runners@;
        let mut j: usize = self.runners.len();
        assert(names.take(j as int) == names);
        assert(handlers.take(j as int) == handlers);
        while j > 0
            invariant
                self.wf(),
                names == self.names(),
                handlers == self.runners@,
                j <= handlers.len(),
                handler_for(names, handlers, name@) == handler_for(
                    names.take(j as int),
                    handlers.take(j as int),
                    name@,
                ),
            decreases j,
        {
            let ghost (n, h) = (names.take(j as int), handlers.take(j as int));
            assert(n.last() == names[j - 1]);
            assert(h.last() == handlers[j - 1]);
            if self.state.builtin_commands[j - 1] == *name {
                return Some(self.runners[j - 1]);
            }
            assert(n.drop_last() == names.take(j - 1));
            assert(h.drop_last() == handlers.take(j - 1));
            j = j - 1;
        }
        None
    }

    /// Runs the stage `cmd`, reading `stdin`, as far as the interpreter can
    /// by itself: a builtin that needs nothing outside finishes it; the rest
    /// is asked of the caller.
    pub fn run_command(&mut self, cmd: &Command, stdin: Option<Vec<u8>>) -> (r: Action)
        requires
            old(self).wf(),
        ensures
            *final(self) == *old(self),
            dispatch(&old(self).state, old(self).handler(cmd.program@), cmd, stdin, r),
    {
        let input = Input::new(cmd, stdin);
        match self.lookup(&cmd.program) {
            None => Action::External(input),
            Some(Builtin::Cd) => cd(&mut self.state, input),
            Some(Builtin::Pwd) => Action::PrintDir,
            Some(Builtin::Echo) => Action::Done(echo(&mut self.state, input)),
            Some(Builtin::Exit) => Action::Done(exit(&mut self.state, input)),
            Some(Builtin::Type) => type_cmd(&mut self.state, input),
        }
    }
}

} // verus!
