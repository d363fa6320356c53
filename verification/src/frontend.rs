//! What a page that shows a session has to decide before it draws: which
//! texts and which style classes to show for the state the session is in,
//! and how that state changes when a program asks for input.

use crate::session::ReadSyscalls;
use crate::text::{decimal, join, joined, push_decimal};
use vstd::prelude::*;
use vstd::string::StringExecFns;

verus! {

/// How many instructions a running program is given before the page is told
/// how it stands.
pub const NUM_INSTR_BEFORE_RESPONSE: i32 = 40;

/// What the page shows of a program that runs.
#[derive(Debug, Clone, PartialEq)]
pub struct MipsState {
    /// What the program has written, piece by piece.
    pub stdout: Vec<String>,
    /// What the toolchain has said about the program, line by line.
    pub mipsy_stdout: Vec<String>,
}

/// A program that was assembled and can run.
#[derive(Debug, Clone, PartialEq)]
pub struct RunningState {
    pub mips_state: MipsState,
    /// The input that the program waits for, if it waits.
    pub input_needed: Option<ReadSyscalls>,
}

/// A file that could not be assembled.
#[derive(Debug, Clone, PartialEq)]
pub struct ErrorState {
    /// What the toolchain has said about the file, piece by piece.
    pub mipsy_stdout: Vec<String>,
}

/// What the page has before it.
#[derive(Debug, Clone, PartialEq)]
pub enum State {
    NoFile,
    Compiled(RunningState),
    CompilerError(ErrorState),
}

/// Whether a program is loaded and can run.
pub fn file_loaded(state: &State) -> (r: bool)
    ensures
        r == (state is Compiled),
{
    match state {
        State::Compiled(_) => true,
        State::NoFile | State::CompilerError(_) => false,
    }
}

/// The input that the program waits for, if there is a program and it
/// waits.
pub fn input_needed(state: &State) -> (r: Option<ReadSyscalls>)
    ensures
        r == match *state {
            State::Compiled(running) => running.input_needed,
            _ => None,
        },
{
    match state {
        State::Compiled(running) => running.input_needed,
        State::NoFile | State::CompilerError(_) => None,
    }
}

/// Whether the program waits for input.
pub fn waiting_syscall(state: &State) -> (r: bool)
    ensures
        r == (state matches State::Compiled(running) && running.input_needed is Some),
{
    input_needed(state).is_some()
}

/// How many messages the tab of the toolchain's output announces: none
/// without a file, one for a file that could not be assembled, and
/// otherwise as many as there are.
pub open spec fn message_count(state: State) -> nat {
    match state {
        State::NoFile => 0,
        State::CompilerError(_) => 1,
        State::Compiled(running) => running.mips_state.mipsy_stdout@.len(),
    }
}

/// The title of the tab that shows the toolchain's output.
pub fn output_tab_title(state: &State) -> (title: String)
    ensures
        title@ == "Mipsy Output - ("@ + decimal(message_count(*state)) + ")"@,
{
    let count: usize = match state {
        State::NoFile => 0,
        State::CompilerError(_) => 1,
        State::Compiled(running) => running.mips_state.mipsy_stdout.len(),
    };
    let mut title = String::from_str("Mipsy Output - (");
    push_decimal(&mut title, count as u64);
    title.append(")");
    title
}

/// The text of the output area: the program's own output or the
/// toolchain's, as `show_io` says.
pub open spec fn output_text(show_io: bool, state: State) -> Seq<char> {
    match state {
        State::Compiled(running) => if show_io {
            joined(running.mips_state.stdout@, ""@)
        } else {
            joined(running.mips_state.mipsy_stdout@, "\n"@)
        },
        State::NoFile => if show_io {
            "mipsy_web beta\nSchool of Computer Science and Engineering, University of New South Wales, Sydney."@
        } else {
            ""@
        },
        State::CompilerError(failed) => if show_io {
            "File has compiler errors!"@
        } else {
            joined(failed.mipsy_stdout@, ""@)
        },
    }
}

/// The text of the output area.
pub fn running_output(show_io: bool, state: &State) -> (text: String)
    ensures
        text@ == output_text(show_io, *state),
{
    match state {
        State::Compiled(running) => {
            if show_io {
                join(&running.mips_state.stdout, "")
            } else {
                join(&running.mips_state.mipsy_stdout, "\n")
            }
        },
        State::NoFile => {
            if show_io {
                String::from_str(
                    "mipsy_web beta\nSchool of Computer Science and Engineering, University of New South Wales, Sydney.",
                )
            } else {
                String::from_str("")
            }
        },
        State::CompilerError(failed) => {
            if show_io {
                String::from_str("File has compiler errors!")
            } else {
                join(&failed.mipsy_stdout, "")
            }
        },
    }
}

/// The page's state once a running program has asked for input: the
/// program as it now stands, waiting for input of the kind asked for. A
/// page without a running program stays as it is.
pub fn process_syscall_request(state: State, mips_state: MipsState, required_type: ReadSyscalls) -> (r:
    State)
    ensures
        r == match state {
            State::Compiled(_) => State::Compiled(
                RunningState { mips_state, input_needed: Some(required_type) },
            ),
            _ => state,
        },
{
    match state {
        State::Compiled(_) => State::Compiled(
            RunningState { mips_state, input_needed: Some(required_type) },
        ),
        other => other,
    }
}

/// The page's state once the user has entered the input asked for, and
/// whether there is a running program to hand it to: the program no longer
/// waits. A page without a running program stays as it is and has nobody
/// to hand the input to.
pub fn process_syscall_response(state: State) -> (r: (State, bool))
    ensures
        r.1 == (state is Compiled),
        r.0 == match state {
            State::Compiled(running) => State::Compiled(
                RunningState { input_needed: None, ..running },
            ),
            _ => state,
        },
{
    match state {
        State::Compiled(running) => (
            State::Compiled(RunningState { mips_state: running.mips_state, input_needed: None }),
            true,
        ),
        other => (other, false),
    }
}

/// Whether a key press moves about or edits rather than types: any key
/// with Alt, Ctrl or Meta held, Backspace, and `-`.
pub fn is_nav_or_special_key(alt: bool, ctrl: bool, meta: bool, key: &str) -> (r: bool)
    ensures
        r == (alt || ctrl || meta || key@ == "Backspace"@ || key@ == "-"@),
{
    if alt || ctrl || meta {
        return true;
    }
    let typed = String::from_str(key);
    typed == String::from_str("Backspace") || typed == String::from_str("-")
}

/// The longest input that the input field takes: one character where a
/// character is asked for, and no limit otherwise.
pub fn input_maxlength(needed: Option<ReadSyscalls>) -> (r: &'static str)
    ensures
        r@ == if needed == Some(ReadSyscalls::ReadChar) {
            "1"@
        } else {
            ""@
        },
{
    match needed {
        Some(ReadSyscalls::ReadChar) => "1",
        _ => "",
    }
}

/// The style of the input field: highlighted while input is asked for,
/// otherwise barred where the program's output shows and hidden where it
/// does not.
pub fn input_classes(needed: bool, show_io: bool) -> (r: &'static str)
    ensures
        r@ == if needed {
            "block w-full bg-th-highlighting"@
        } else if show_io {
            "block w-full cursor-not-allowed"@
        } else {
            "hidden"@
        },
{
    if needed {
        "block w-full bg-th-highlighting"
    } else if show_io {
        "block w-full cursor-not-allowed"
    } else {
        "hidden"
    }
}

/// The style of the overlay behind the dialog: spread over the page while
/// the dialog shows, hidden otherwise.
pub fn modal_overlay_classes(display_modal: bool) -> (r: &'static str)
    ensures
        r@ == if display_modal {
            "bg-th-secondary bg-opacity-90 absolute top-0 left-0 h-screen w-screen"@
        } else {
            "hidden"@
        },
{
    if display_modal {
        "bg-th-secondary bg-opacity-90 absolute top-0 left-0 h-screen w-screen"
    } else {
        "hidden"
    }
}

/// The style of a tab: its own classes, and behind them, after one space,
/// the mark of the chosen tab where it is the one chosen.
pub open spec fn tab_style(base: Seq<char>, chosen: bool) -> Seq<char> {
    if chosen {
        base + " "@ + "bg-th-tabclicked"@
    } else {
        base
    }
}

/// The style of a tab.
pub fn tab_classes(base: &str, chosen: bool) -> (r: String)
    ensures
        r@ == tab_style(base@, chosen),
{
    let mut classes = String::from_str(base);
    if chosen {
        classes.append(" ");
        classes.append("bg-th-tabclicked");
    }
    classes
}

/// The styles of the two tabs above the output area, first that of the
/// toolchain's output and then that of the program's: the one that shows
/// is marked as chosen.
pub fn output_tab_classes(show_io: bool) -> (r: (String, String))
    ensures
        r.0@ == tab_style(
            "w-1/2 hover:bg-white float-left border-t-2 border-r-2 border-black cursor-pointer px-1 py-2"@,
            !show_io,
        ),
        r.1@ == tab_style(
            "w-1/2 hover:bg-white float-left border-t-2 border-r-2 border-l-2 border-black cursor-pointer px-1 py-2"@,
            show_io,
        ),
{
    (
        tab_classes(
            "w-1/2 hover:bg-white float-left border-t-2 border-r-2 border-black cursor-pointer px-1 py-2",
            !show_io,
        ),
        tab_classes(
            "w-1/2 hover:bg-white float-left border-t-2 border-r-2 border-l-2 border-black cursor-pointer px-1 py-2",
            show_io,
        ),
    )
}

/// The styles of the two tabs above the program text, first that of the
/// decompiled program and then that of the source: the one that shows is
/// marked as chosen.
pub fn source_tab_classes(show_source: bool) -> (r: (String, String))
    ensures
        r.0@ == tab_style(
            "w-1/2 leading-none hover:bg-white float-left border-t-2 border-r-2 border-black cursor-pointer px-1"@,
            !show_source,
        ),
        r.1@ == tab_style(
            "w-1/2 leading-none hover:bg-white float-left border-t-2 border-r-2 border-l-2 border-black cursor-pointer px-1 "@,
            show_source,
        ),
{
    (
        tab_classes(
            "w-1/2 leading-none hover:bg-white float-left border-t-2 border-r-2 border-black cursor-pointer px-1",
            !show_source,
        ),
        tab_classes(
            "w-1/2 leading-none hover:bg-white float-left border-t-2 border-r-2 border-l-2 border-black cursor-pointer px-1 ",
            show_source,
        ),
    )
}

/// A button of the navigation bar.
#[derive(Clone, Copy, Debug, PartialEq, Eq, Structural)]
pub enum Icon {
    Run,
    Reset,
    Kill,
    StepBack,
    StepNext,
}

impl Icon {
    /// What the button says.
    pub fn label(self) -> (r: &'static str)
        ensures
            r@ == match self {
                Icon::Run => "Run"@,
                Icon::Reset => "Reset"@,
                Icon::Kill => "Kill"@,
                Icon::StepBack => "Step Back"@,
                Icon::StepNext => "Step Next"@,
            },
    {
        match self {
            Icon::Run => "Run",
            Icon::Reset => "Reset",
            Icon::Kill => "Kill",
            Icon::StepBack => "Step Back",
            Icon::StepNext => "Step Next",
        }
    }

    /// Whether a press of the button does anything: running and resetting
    /// do.
    pub fn has_callback(self) -> (r: bool)
        ensures
            r == (self == Icon::Run || self == Icon::Reset),
    {
        match self {
            Icon::Run | Icon::Reset => true,
            _ => false,
        }
    }
}

/// The buttons of the navigation bar, from left to right.
pub fn icons() -> (r: Vec<Icon>)
    ensures
        r@ == seq![Icon::Run, Icon::Reset, Icon::Kill, Icon::StepBack, Icon::StepNext],
{
    let mut r: Vec<Icon> = Vec::new();
    r.push(Icon::Run);
    r.push(Icon::Reset);
    r.push(Icon::Kill);
    r.push(Icon::StepBack);
    r.push(Icon::StepNext);
    assert(r@ =~= seq![Icon::Run, Icon::Reset, Icon::Kill, Icon::StepBack, Icon::StepNext]);
    r
}

} // verus!
