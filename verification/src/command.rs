//! The commands that the debugger knows: their names, their arguments, what
//! they say of themselves, and how they can fail.

use crate::machine::RuntimeFault;
use vstd::prelude::*;
use vstd::string::StringExecFns;

verus! {

/// Why a command failed, as a mathematical value.
pub enum CommandFault {
    MustLoadFile,
    CannotParseLine { line: Seq<char>, error: Seq<char> },
    CannotCompileLine { line: Seq<char>, error: Seq<char> },
    ReplRuntimeError { fault: RuntimeFault, line: Seq<char> },
    UnexpectedReply,
}

/// Why a command failed.
#[derive(Debug, Clone, PartialEq)]
pub enum CommandError {
    /// The command needs a loaded program and there is none.
    MustLoadFile,
    /// The line is no instruction; `error` is what the parser said.
    CannotParseLine { line: String, error: String },
    /// The line is an instruction that cannot be assembled; `error` is
    /// what the assembler said.
    CannotCompileLine { line: String, error: String },
    /// A word of the instruction met a fault when it ran; `line` is the
    /// line that the word came from.
    ReplRuntimeError { fault: RuntimeFault, line: String },
    /// A report came in that does not answer what was asked for.
    UnexpectedReply,
}

impl View for CommandError {
    type V = CommandFault;

    open spec fn view(&self) -> CommandFault {
        match self {
            CommandError::MustLoadFile => CommandFault::MustLoadFile,
            CommandError::CannotParseLine { line, error } => CommandFault::CannotParseLine {
                line: line@,
                error: error@,
            },
            CommandError::CannotCompileLine { line, error } => CommandFault::CannotCompileLine {
                line: line@,
                error: error@,
            },
            CommandError::ReplRuntimeError { fault, line } => CommandFault::ReplRuntimeError {
                fault: *fault,
                line: line@,
            },
            CommandError::UnexpectedReply => CommandFault::UnexpectedReply,
        }
    }
}

/// A command of the debugger.
#[derive(Clone, Copy, Debug, PartialEq, Eq, Structural)]
pub enum Command {
    /// Runs one instruction at once.
    Dot,
    /// Lists the labels of the loaded program.
    Labels,
}

impl Command {
    /// The name under which the command is called.
    pub fn name(self) -> (r: &'static str)
        ensures
            r@ == match self {
                Command::Dot => "."@,
                Command::Labels => "labels"@,
            },
    {
        match self {
            Command::Dot => ".",
            Command::Labels => "labels",
        }
    }

    /// The other names under which the command is called.
    pub fn aliases(self) -> (r: Vec<&'static str>)
        ensures
            r@.len() == match self {
                Command::Dot => 0nat,
                Command::Labels => 3nat,
            },
            self == Command::Labels ==> r@[0]@ == "ls"@ && r@[1]@ == "las"@ && r@[2]@ == "lbls"@,
    {
        let mut r: Vec<&'static str> = Vec::new();
        match self {
            Command::Dot => {},
            Command::Labels => {
                r.push("ls");
                r.push("las");
                r.push("lbls");
            },
        }
        r
    }

    /// The arguments that the command cannot do without, by name.
    pub fn required_args(self) -> (r: Vec<&'static str>)
        ensures
            r@.len() == self.min_args(),
            self == Command::Dot ==> r@[0]@ == "instruction"@,
    {
        let mut r: Vec<&'static str> = Vec::new();
        match self {
            Command::Dot => {
                r.push("instruction");
            },
            Command::Labels => {},
        }
        r
    }

    /// The least number of arguments that the command takes.
    pub open spec fn min_args(self) -> nat {
        match self {
            Command::Dot => 1,
            Command::Labels => 0,
        }
    }

    /// The greatest number of arguments that the command takes, if there is
    /// one: a command that takes the rest of its line has none.
    pub open spec fn max_args(self) -> Option<nat> {
        match self {
            Command::Dot => None,
            Command::Labels => Some(0nat),
        }
    }

    /// Whether the command can be called with `count` arguments.
    pub fn accepts(self, count: usize) -> (r: bool)
        ensures
            r == (self.min_args() <= count && match self.max_args() {
                Some(most) => count <= most,
                None => true,
            }),
    {
        match self {
            Command::Dot => count >= 1,
            Command::Labels => count == 0,
        }
    }

    /// What the command does, in one line.
    pub fn description(self) -> (r: &'static str)
        ensures
            r@ == match self {
                Command::Dot => "execute a MIPS instruction"@,
                Command::Labels => "prints the addresses of all labels"@,
            },
    {
        match self {
            Command::Dot => "execute a MIPS instruction",
            Command::Labels => "prints the addresses of all labels",
        }
    }

    /// What the command does, at length.
    pub fn long_description(self) -> (r: &'static str)
        ensures
            r@ == match self {
                Command::Dot => "Executes a MIPS instruction immediately"@,
                Command::Labels => "Prints the addresses of all labels in the currently loaded program."@,
            },
    {
        match self {
            Command::Dot => "Executes a MIPS instruction immediately",
            Command::Labels => "Prints the addresses of all labels in the currently loaded program.",
        }
    }
}

/// The command that `word` calls, by its name or by one of its aliases.
pub open spec fn called(word: Seq<char>) -> Option<Command> {
    if word == "."@ {
        Some(Command::Dot)
    } else if word == "labels"@ || word == "ls"@ || word == "las"@ || word == "lbls"@ {
        Some(Command::Labels)
    } else {
        None
    }
}

/// Finds the command that `word` calls, by its name or by one of its
/// aliases. Names are told apart by case.
pub fn find_command(word: &str) -> (r: Option<Command>)
    ensures
        r == called(word@),
{
    let word = String::from_str(word);
    if word == String::from_str(".") {
        Some(Command::Dot)
    } else if word == String::from_str("labels") || word == String::from_str("ls") || word
        == String::from_str("las") || word == String::from_str("lbls") {
        Some(Command::Labels)
    } else {
        None
    }
}

} // verus!
