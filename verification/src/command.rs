//! Programs to run, and what they leave behind.

use crate::text::{owned, views};
use vstd::prelude::*;

verus! {

/// A program and the arguments it is run with.
pub struct CommandLine {
    pub program: String,
    pub args: Vec<String>,
}

/// The characters of a command line.
pub struct CommandView {
    pub program: Seq<char>,
    pub args: Seq<Seq<char>>,
}

impl View for CommandLine {
    type V = CommandView;

    open spec fn view(&self) -> CommandView {
        CommandView { program: self.program@, args: views(self.args@) }
    }
}

/// The command line `program args...`.
pub open spec fn command_view(program: Seq<char>, args: Seq<Seq<char>>) -> CommandView {
    CommandView { program, args }
}

/// A command line with no arguments yet.
pub fn command(program: &str) -> (c: CommandLine)
    ensures
        c@ == command_view(program@, Seq::empty()),
{
    let c = CommandLine { program: owned(program), args: Vec::new() };
    assert(views(c.args@) =~= Seq::<Seq<char>>::empty());
    c
}

impl CommandLine {
    /// The command line with one argument more.
    pub fn arg(self, arg: &str) -> (c: CommandLine)
        ensures
            c@ == command_view(self@.program, self@.args.push(arg@)),
    {
        let mut args = self.args;
        args.push(owned(arg));
        assert(views(args@) =~= views(self.args@).push(arg@));
        CommandLine { program: self.program, args }
    }
}

/// The command line that runs `script` in a shell.
pub open spec fn shell_view(script: Seq<char>) -> CommandView {
    command_view("sh"@, seq!["-c"@, script])
}

/// The command line that runs `script` in a shell.
pub fn shell(script: &str) -> (c: CommandLine)
    ensures
        c@ == shell_view(script@),
{
    let c = command("sh").arg("-c").arg(script);
    assert(c@.args =~= seq!["-c"@, script@]);
    c
}

/// What a command left behind when it ended.
pub struct Output {
    /// Whether it ended with the exit code zero.
    pub success: bool,
    /// What it wrote to its standard output.
    pub stdout: Vec<u8>,
}

} // verus!
