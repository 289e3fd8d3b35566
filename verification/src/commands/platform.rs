//! The desktop platforms, and programs to be started on them.
use vstd::prelude::*;

verus! {

/// The platforms between which the shell distinguishes.
#[derive(Debug, Clone, Copy, PartialEq, Eq, Structural)]
pub enum Platform {
    Windows,
    MacOs,
    Other,
}

/// A program to be started, with its arguments.
#[derive(Debug, Clone, PartialEq, Eq)]
pub struct CommandLine {
    pub program: String,
    pub args: Vec<String>,
}

/// What a `CommandLine` says.
#[verifier::ext_equal]
pub struct CommandLineView {
    pub program: Seq<char>,
    pub args: Seq<Seq<char>>,
}

impl View for CommandLine {
    type V = CommandLineView;

    open spec fn view(&self) -> CommandLineView {
        CommandLineView { program: self.program@, args: self.args.deep_view() }
    }
}

/// The program `program` with one argument.
pub fn with_one_arg(program: &str, arg: String) -> (r: CommandLine)
    ensures
        r@ == (CommandLineView { program: program@, args: seq![arg@] }),
{
    let mut args: Vec<String> = Vec::new();
    let ghost shown = arg@;
    args.push(arg);
    proof {
        assert(args.deep_view() =~= seq![shown]);
    }
    CommandLine { program: program.to_owned(), args }
}

} // verus!
