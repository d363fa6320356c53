//! The command that runs one instruction at once, outside the program.
//!
//! The command needs a loaded program: without one it ends at once, whatever
//! the line, and nothing is parsed, checked or run. With one, the line is
//! parsed, checked for its shape, checked against the loaded program, encoded
//! into one or more words, and each word is run. The command itself does none
//! of this work: it says which piece comes next, takes in what came of it,
//! and decides how to go on. Whoever drives it does the piece asked for and
//! reports back.

use crate::command::{CommandError, CommandFault};
use crate::session::{Session, SessionModel, SessionState, StepOutcome, StepResult};
use crate::text::{join, joined};
use vstd::prelude::*;

verus! {

/// The piece of work that the command waits for.
#[derive(Clone, Copy, Debug, PartialEq, Eq, Structural)]
pub enum DotStage {
    /// The line is being parsed.
    Parsing,
    /// The instruction's shape is being checked, which does not look at
    /// the program.
    PreChecking,
    /// The instruction is being checked against the loaded program.
    PostChecking,
    /// The instruction is being encoded.
    Encoding,
    /// A word of the instruction is being run.
    Executing,
    /// The command has ended.
    Finished,
}

/// What the command asks its driver to do next.
#[derive(Debug, PartialEq)]
pub enum DotRequest {
    /// Parse the line as one instruction.
    Parse,
    /// Check the instruction's shape.
    PreCheck,
    /// Check the instruction against the loaded program.
    PostCheck,
    /// Encode the instruction against the loaded program.
    Encode,
    /// Run this word on the session's machine.
    Execute(u32),
    /// Nothing more: the command has ended with this result.
    Finish(Result<(), CommandError>),
}

/// What the command asks its driver to do next, as a mathematical value.
pub enum DotRequestModel {
    Parse,
    PreCheck,
    PostCheck,
    Encode,
    Execute(u32),
    Finish(Result<(), CommandFault>),
}

impl View for DotRequest {
    type V = DotRequestModel;

    open spec fn view(&self) -> DotRequestModel {
        match self {
            DotRequest::Parse => DotRequestModel::Parse,
            DotRequest::PreCheck => DotRequestModel::PreCheck,
            DotRequest::PostCheck => DotRequestModel::PostCheck,
            DotRequest::Encode => DotRequestModel::Encode,
            DotRequest::Execute(word) => DotRequestModel::Execute(*word),
            DotRequest::Finish(Ok(())) => DotRequestModel::Finish(Ok(())),
            DotRequest::Finish(Err(e)) => DotRequestModel::Finish(Err(e@)),
        }
    }
}

/// What the driver reports of the piece of work it was asked for.
#[derive(Debug, Clone, PartialEq)]
pub enum DotReply {
    /// The parse or the check passed.
    Passed,
    /// The parse, the check or the encoding failed, with these words.
    Failed(String),
    /// The instruction encodes to these words, in this order.
    Encoded(Vec<u32>),
    /// The word was run, with this outcome.
    Ran(StepOutcome),
}

/// What the driver reports, as a mathematical value.
pub enum DotReplyModel {
    Passed,
    Failed(Seq<char>),
    Encoded(Seq<u32>),
    Ran(StepResult),
}

impl View for DotReply {
    type V = DotReplyModel;

    open spec fn view(&self) -> DotReplyModel {
        match self {
            DotReply::Passed => DotReplyModel::Passed,
            DotReply::Failed(error) => DotReplyModel::Failed(error@),
            DotReply::Encoded(words) => DotReplyModel::Encoded(words@),
            DotReply::Ran(outcome) => DotReplyModel::Ran(outcome@),
        }
    }
}

/// The command as a mathematical value.
pub struct DotModel {
    /// The line to run.
    pub line: Seq<char>,
    /// The piece of work that is awaited.
    pub stage: DotStage,
    /// The words of the instruction, once it is encoded.
    pub words: Seq<u32>,
    /// How many of the words have been run.
    pub done: int,
}

/// The arguments joined into one line, one space between each two.
pub open spec fn line_of(args: Seq<String>) -> Seq<char> {
    joined(args, seq![' '])
}

/// Joins the arguments into one line, one space between each two.
pub fn join_args(args: &Vec<String>) -> (line: String)
    ensures
        line@ == line_of(args@),
{
    proof {
        reveal_strlit(" ");
        assert(" "@ =~= seq![' ']);
    }
    join(args, " ")
}

impl DotModel {
    /// The command that has just been given `line` in a session in `state`:
    /// with a program it waits for the parse; without one it has ended.
    pub open spec fn start(line: Seq<char>, state: SessionState) -> DotModel {
        DotModel {
            line,
            stage: if state == SessionState::NoProgramLoaded {
                DotStage::Finished
            } else {
                DotStage::Parsing
            },
            words: Seq::empty(),
            done: 0,
        }
    }

    /// What the command asks for first in a session in `state`: the parse,
    /// or, without a program, nothing but to load one.
    pub open spec fn first_request(state: SessionState) -> DotRequestModel {
        if state == SessionState::NoProgramLoaded {
            DotRequestModel::Finish(Err(CommandFault::MustLoadFile))
        } else {
            DotRequestModel::Parse
        }
    }

    /// The command ended.
    pub open spec fn finished(self) -> DotModel {
        DotModel { stage: DotStage::Finished, ..self }
    }

    /// The failure of the piece of work awaited, with what the driver said
    /// of it: the parse fails as a line that cannot be parsed, everything
    /// behind it as a line that cannot be compiled.
    pub open spec fn failure(self, error: Seq<char>) -> CommandFault {
        if self.stage == DotStage::Parsing {
            CommandFault::CannotParseLine { line: self.line, error }
        } else {
            CommandFault::CannotCompileLine { line: self.line, error }
        }
    }

    /// Whether the command ends for want of a program: it has not ended
    /// yet, and the session has none.
    pub open spec fn wants_program(self, session: SessionModel) -> bool {
        self.stage != DotStage::Finished && session.state == SessionState::NoProgramLoaded
    }

    /// The command after `reply` has come in, with what it asks for next.
    ///
    /// A command that has not ended ends at once where the session has no
    /// program, whatever was reported. With a program the pieces follow in
    /// their order: the parse, the check of the shape, the check against
    /// the program, the encoding, and the words one by one. A report that
    /// does not answer what was asked for ends the command.
    pub open spec fn advance(self, session: SessionModel, reply: DotReplyModel) -> (
        DotModel,
        DotRequestModel,
    ) {
        if self.wants_program(session) {
            (self.finished(), DotRequestModel::Finish(Err(CommandFault::MustLoadFile)))
        } else {
            self.proceed(reply)
        }
    }

    /// The command after `reply` has come in, where the session has a
    /// program or the command has ended.
    pub open spec fn proceed(self, reply: DotReplyModel) -> (DotModel, DotRequestModel) {
        match (self.stage, reply) {
            (DotStage::Parsing, DotReplyModel::Passed) => (
                DotModel { stage: DotStage::PreChecking, ..self },
                DotRequestModel::PreCheck,
            ),
            (DotStage::PreChecking, DotReplyModel::Passed) => (
                DotModel { stage: DotStage::PostChecking, ..self },
                DotRequestModel::PostCheck,
            ),
            (DotStage::PostChecking, DotReplyModel::Passed) => (
                DotModel { stage: DotStage::Encoding, ..self },
                DotRequestModel::Encode,
            ),
            (DotStage::Parsing, DotReplyModel::Failed(error)) => (
                self.finished(),
                DotRequestModel::Finish(Err(self.failure(error))),
            ),
            (DotStage::PreChecking, DotReplyModel::Failed(error)) => (
                self.finished(),
                DotRequestModel::Finish(Err(self.failure(error))),
            ),
            (DotStage::PostChecking, DotReplyModel::Failed(error)) => (
                self.finished(),
                DotRequestModel::Finish(Err(self.failure(error))),
            ),
            (DotStage::Encoding, DotReplyModel::Failed(error)) => (
                self.finished(),
                DotRequestModel::Finish(Err(self.failure(error))),
            ),
            (DotStage::Encoding, DotReplyModel::Encoded(words)) => {
                if words.len() == 0 {
                    (DotModel { words, ..self.finished() }, DotRequestModel::Finish(Ok(())))
                } else {
                    (
                        DotModel { stage: DotStage::Executing, words, done: 0, ..self },
                        DotRequestModel::Execute(words[0]),
                    )
                }
            },
            (DotStage::Executing, DotReplyModel::Ran(outcome)) => {
                match outcome {
                    StepResult::Faulted(fault) => (
                        self.finished(),
                        DotRequestModel::Finish(
                            Err(CommandFault::ReplRuntimeError { fault, line: self.line }),
                        ),
                    ),
                    _ => {
                        if self.done + 1 < self.words.len() {
                            (
                                DotModel { done: self.done + 1, ..self },
                                DotRequestModel::Execute(self.words[self.done + 1]),
                            )
                        } else {
                            (
                                DotModel { done: self.done + 1, ..self.finished() },
                                DotRequestModel::Finish(Ok(())),
                            )
                        }
                    },
                }
            },
            _ => (self.finished(), DotRequestModel::Finish(Err(CommandFault::UnexpectedReply))),
        }
    }

    /// The session after `reply` has come in: a word that was run is taken
    /// in by a session that has a program, and nothing else touches it.
    pub open spec fn session_after(self, session: SessionModel, reply: DotReplyModel) -> SessionModel {
        match (self.stage, reply) {
            (DotStage::Executing, DotReplyModel::Ran(outcome)) => if self.wants_program(session) {
                session
            } else {
                session.inject(outcome)
            },
            _ => session,
        }
    }

    /// While words are being run, the next one exists.
    pub open spec fn wf(self) -> bool {
        self.stage == DotStage::Executing ==> 0 <= self.done < self.words.len()
    }
}

/// One run of the command: the line, and how far it has come.
#[derive(Debug)]
pub struct DotCommand {
    line: String,
    stage: DotStage,
    words: Vec<u32>,
    done: usize,
}

impl View for DotCommand {
    type V = DotModel;

    closed spec fn view(&self) -> DotModel {
        DotModel { line: self.line@, stage: self.stage, words: self.words@, done: self.done as int }
    }
}

impl DotCommand {
    #[verifier::type_invariant]
    spec fn inv(self) -> bool {
        self@.wf()
    }

    /// Starts the command on its arguments, which make up the line. In a
    /// session with a program the first thing to do is to parse the line.
    /// In a session without one the command ends at once: whatever the
    /// line, a program has to be loaded first.
    pub fn start(session: &Session, args: &Vec<String>) -> (r: (DotCommand, DotRequest))
        ensures
            r.0@ == DotModel::start(line_of(args@), session@.state),
            r.1@ == DotModel::first_request(session@.state),
    {
        let line = join_args(args);
        if session.state() == SessionState::NoProgramLoaded {
            (
                DotCommand { line, stage: DotStage::Finished, words: Vec::new(), done: 0 },
                DotRequest::Finish(Err(CommandError::MustLoadFile)),
            )
        } else {
            (
                DotCommand { line, stage: DotStage::Parsing, words: Vec::new(), done: 0 },
                DotRequest::Parse,
            )
        }
    }

    /// The line that the command runs.
    pub fn line(&self) -> (line: &str)
        ensures
            line@ == self@.line,
    {
        self.line.as_str()
    }

    /// The piece of work that the command waits for.
    pub fn stage(&self) -> (stage: DotStage)
        ensures
            stage == self@.stage,
    {
        self.stage
    }

    fn fail(&self, error: String) -> (e: CommandError)
        ensures
            e@ == self@.failure(error@),
    {
        if self.stage == DotStage::Parsing {
            CommandError::CannotParseLine { line: self.line.clone(), error }
        } else {
            CommandError::CannotCompileLine { line: self.line.clone(), error }
        }
    }

    /// Takes in what came of the piece of work last asked for, and says
    /// what to do next. Only a word that was run changes the session. Where
    /// the session has no program, a command that has not ended ends with
    /// the demand to load one, and the session stays as it is.
    pub fn advance(self, session: &mut Session, reply: DotReply) -> (r: (DotCommand, DotRequest))
        ensures
            r.0@ == self@.advance(old(session)@, reply@).0,
            r.1@ == self@.advance(old(session)@, reply@).1,
            final(session)@ == self@.session_after(old(session)@, reply@),
            self@.wants_program(old(session)@) ==> r.0@.stage == DotStage::Finished && r.1@
                == DotRequestModel::Finish(Err(CommandFault::MustLoadFile)),
            self@.wants_program(old(session)@) ==> final(session)@ == old(session)@,
    {
        proof {
            use_type_invariant(&self);
        }
        let mut command = self;
        if command.stage != DotStage::Finished && session.state() == SessionState::NoProgramLoaded {
            command.stage = DotStage::Finished;
            return (command, DotRequest::Finish(Err(CommandError::MustLoadFile)));
        }
        match reply {
            DotReply::Passed => {
                match command.stage {
                    DotStage::Parsing => {
                        command.stage = DotStage::PreChecking;
                        (command, DotRequest::PreCheck)
                    },
                    DotStage::PreChecking => {
                        command.stage = DotStage::PostChecking;
                        (command, DotRequest::PostCheck)
                    },
                    DotStage::PostChecking => {
                        command.stage = DotStage::Encoding;
                        (command, DotRequest::Encode)
                    },
                    _ => {
                        command.stage = DotStage::Finished;
                        (command, DotRequest::Finish(Err(CommandError::UnexpectedReply)))
                    },
                }
            },
            DotReply::Failed(error) => {
                match command.stage {
                    DotStage::Parsing | DotStage::PreChecking | DotStage::PostChecking
                    | DotStage::Encoding => {
                        let e = command.fail(error);
                        command.stage = DotStage::Finished;
                        (command, DotRequest::Finish(Err(e)))
                    },
                    _ => {
                        command.stage = DotStage::Finished;
                        (command, DotRequest::Finish(Err(CommandError::UnexpectedReply)))
                    },
                }
            },
            DotReply::Encoded(words) => {
                match command.stage {
                    DotStage::Encoding => {
                        if words.len() == 0 {
                            command.words = words;
                            command.stage = DotStage::Finished;
                            (command, DotRequest::Finish(Ok(())))
                        } else {
                            let first = words[0];
                            command.words = words;
                            command.done = 0;
                            command.stage = DotStage::Executing;
                            (command, DotRequest::Execute(first))
                        }
                    },
                    _ => {
                        command.stage = DotStage::Finished;
                        (command, DotRequest::Finish(Err(CommandError::UnexpectedReply)))
                    },
                }
            },
            DotReply::Ran(outcome) => {
                match command.stage {
                    DotStage::Executing => {
                        let count: usize = command.words.len();
                        let next: usize = command.done + 1;
                        let fault = match &outcome {
                            StepOutcome::Faulted(fault) => Some(*fault),
                            _ => None,
                        };
                        let _ = session.inject(outcome);
                        match fault {
                            Some(fault) => {
                                let e = CommandError::ReplRuntimeError {
                                    fault,
                                    line: command.line.clone(),
                                };
                                command.stage = DotStage::Finished;
                                (command, DotRequest::Finish(Err(e)))
                            },
                            None => {
                                if next < count {
                                    let word = command.words[next];
                                    command.done = next;
                                    (command, DotRequest::Execute(word))
                                } else {
                                    command.stage = DotStage::Finished;
                                    command.done = next;
                                    (command, DotRequest::Finish(Ok(())))
                                }
                            },
                        }
                    },
                    _ => {
                        command.stage = DotStage::Finished;
                        (command, DotRequest::Finish(Err(CommandError::UnexpectedReply)))
                    },
                }
            },
        }
    }
}

/// Without a program the command ends at once, whatever the line: it asks
/// for nothing but a program, no piece of work is asked for, and the session
/// is what it was.
pub proof fn lemma_must_load_before_running(line: Seq<char>, session: SessionModel)
    requires
        session.state == SessionState::NoProgramLoaded,
    ensures
        DotModel::first_request(session.state) == DotRequestModel::Finish(
            Err(CommandFault::MustLoadFile),
        ),
        DotModel::start(line, session.state).stage == DotStage::Finished,
{
}

/// A command that has not ended and finds the session without a program
/// ends with the demand to load one, whatever is reported to it, and leaves
/// the session as it was.
pub proof fn lemma_must_load_at_every_stage(
    command: DotModel,
    session: SessionModel,
    reply: DotReplyModel,
)
    requires
        session.state == SessionState::NoProgramLoaded,
        command.stage != DotStage::Finished,
    ensures
        command.advance(session, reply).1 == DotRequestModel::Finish(Err(CommandFault::MustLoadFile)),
        command.advance(session, reply).0.stage == DotStage::Finished,
        command.session_after(session, reply) == session,
{
}

/// With a program loaded, the parse and the check of the instruction's
/// shape do not depend on which program it is: the command takes their
/// reports the same way in any two sessions that have a program.
pub proof fn lemma_shape_is_checked_without_the_program(
    command: DotModel,
    first: SessionModel,
    second: SessionModel,
    reply: DotReplyModel,
)
    requires
        first.state != SessionState::NoProgramLoaded,
        second.state != SessionState::NoProgramLoaded,
        command.stage == DotStage::Parsing || command.stage == DotStage::PreChecking,
    ensures
        command.advance(first, reply) == command.advance(second, reply),
{
}

/// Until the instruction's words are run the command leaves the session
/// alone, whatever is reported to it, and it asks for a word to be run only
/// when the instruction has been encoded.
pub proof fn lemma_only_running_changes_session(
    command: DotModel,
    session: SessionModel,
    reply: DotReplyModel,
)
    requires
        command.stage != DotStage::Executing,
    ensures
        command.session_after(session, reply) == session,
        !(command.advance(session, reply).1 is Execute) || command.stage == DotStage::Encoding,
{
}

/// No word is run for a session without a program: whatever the command is
/// told, a session that has no program comes out as it went in.
pub proof fn lemma_no_program_no_change(command: DotModel, session: SessionModel, reply: DotReplyModel)
    requires
        session.state == SessionState::NoProgramLoaded,
    ensures
        command.session_after(session, reply) == session,
{
}

} // verus!
