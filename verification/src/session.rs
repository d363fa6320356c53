//! The debugger's session: which state a loaded program is in, the machine
//! it runs on, and the history that stepping backwards returns to.
//!
//! The session decides; it does not execute. Whoever drives it runs one
//! instruction on the machine state that the session holds and reports what
//! came of it as a [`StepOutcome`]. The session then takes a snapshot of the
//! state the instruction started from and moves on.

use crate::machine::{MachineModel, MachineState, RuntimeFault};
use vstd::prelude::*;

verus! {

/// The register that receives what a system call reads.
pub const V0: u8 = 2;

/// How many bytes one instruction takes.
pub const INSTRUCTION_BYTES: u32 = 4;

/// The kinds of input that a running program can ask for. Each of them
/// suspends the program until a value is supplied.
#[derive(Clone, Copy, Debug, PartialEq, Eq, Structural)]
pub enum ReadSyscalls {
    ReadInt,
    ReadFloat,
    ReadDouble,
    ReadString,
    ReadChar,
}

/// The states of a session.
#[derive(Clone, Copy, Debug, PartialEq, Eq, Structural)]
pub enum SessionState {
    /// Nothing has been loaded, or the session has been reset.
    NoProgramLoaded,
    /// A program is loaded and its next instruction can be run.
    LoadedIdle,
    /// The program has asked for input of the given kind and waits for it.
    AwaitingInput(ReadSyscalls),
    /// The program has exited or has met a fault.
    Terminated,
}

/// Why the session refused what was asked of it, or what stopped the
/// program.
#[derive(Clone, Copy, Debug, PartialEq, Eq, Structural)]
pub enum SessionError {
    /// No program is loaded.
    MustLoadFile,
    /// The history is empty: there is nothing to step back to.
    NothingToStepBack,
    /// The program waits for input, which has to be supplied first.
    InputPending,
    /// A value was supplied that the program does not wait for.
    NotAwaitingInput,
    /// The program has ended.
    ProgramEnded,
    /// The instruction met a fault.
    Runtime(RuntimeFault),
}

/// What came of running one instruction.
#[derive(Debug, Clone, PartialEq)]
pub enum StepOutcome {
    /// The instruction ran and left the machine in this state.
    Completed(MachineState),
    /// The instruction is a system call that waits for input of this kind.
    InputNeeded(ReadSyscalls),
    /// The instruction is the system call that ends the program.
    Exited,
    /// The instruction met a fault and changed nothing.
    Faulted(RuntimeFault),
}

/// What came of running one instruction, as a mathematical value.
pub enum StepResult {
    Completed(MachineModel),
    InputNeeded(ReadSyscalls),
    Exited,
    Faulted(RuntimeFault),
}

impl View for StepOutcome {
    type V = StepResult;

    open spec fn view(&self) -> StepResult {
        match self {
            StepOutcome::Completed(machine) => StepResult::Completed(machine@),
            StepOutcome::InputNeeded(kind) => StepResult::InputNeeded(*kind),
            StepOutcome::Exited => StepResult::Exited,
            StepOutcome::Faulted(fault) => StepResult::Faulted(*fault),
        }
    }
}

/// A capture of the machine and of the session's state, with the input it
/// waited for, as a mathematical value.
pub struct SnapshotModel {
    pub machine: MachineModel,
    pub state: SessionState,
}

/// A capture of the machine and of the session's state, with the input it
/// waited for, taken before an instruction runs.
#[derive(Debug, Clone, PartialEq)]
pub struct HistorySnapshot {
    machine: MachineState,
    state: SessionState,
}

impl View for HistorySnapshot {
    type V = SnapshotModel;

    closed spec fn view(&self) -> SnapshotModel {
        SnapshotModel { machine: self.machine@, state: self.state }
    }
}

/// A session as a mathematical value.
pub struct SessionModel {
    pub state: SessionState,
    pub machine: MachineModel,
    /// The snapshots taken so far, the latest last.
    pub history: Seq<SnapshotModel>,
}

/// Why a forward step cannot start in `state`, if it cannot.
pub open spec fn refusal(state: SessionState) -> Option<SessionError> {
    match state {
        SessionState::NoProgramLoaded => Some(SessionError::MustLoadFile),
        SessionState::LoadedIdle => None,
        SessionState::AwaitingInput(_) => Some(SessionError::InputPending),
        SessionState::Terminated => Some(SessionError::ProgramEnded),
    }
}

impl SessionModel {
    /// The session before anything is loaded, on a machine with nothing
    /// written.
    pub open spec fn empty() -> SessionModel {
        SessionModel {
            state: SessionState::NoProgramLoaded,
            machine: MachineModel {
                registers: Seq::new(32, |k: int| None::<i32>),
                memory: Map::empty(),
                pc: 0,
            },
            history: Seq::empty(),
        }
    }

    /// The session with a program freshly loaded on `machine`.
    pub open spec fn loaded(machine: MachineModel) -> SessionModel {
        SessionModel { state: SessionState::LoadedIdle, machine, history: Seq::empty() }
    }

    /// The history with a snapshot of the session as it stands added to it.
    pub open spec fn recorded(self) -> Seq<SnapshotModel> {
        self.history.push(SnapshotModel { machine: self.machine, state: self.state })
    }

    /// The session after a forward step with the given outcome. Only an
    /// idle session steps: it records the machine as it was, and then
    /// takes the new machine, waits for input, or ends. Any other session
    /// stays as it is.
    pub open spec fn step_forward(self, outcome: StepResult) -> SessionModel {
        if self.state == SessionState::LoadedIdle {
            let history = self.recorded();
            match outcome {
                StepResult::Completed(machine) => SessionModel {
                    state: SessionState::LoadedIdle,
                    machine,
                    history,
                },
                StepResult::InputNeeded(kind) => SessionModel {
                    state: SessionState::AwaitingInput(kind),
                    machine: self.machine,
                    history,
                },
                StepResult::Exited => SessionModel {
                    state: SessionState::Terminated,
                    machine: self.machine,
                    history,
                },
                StepResult::Faulted(_) => SessionModel {
                    state: SessionState::Terminated,
                    machine: self.machine,
                    history,
                },
            }
        } else {
            self
        }
    }

    /// What a forward step with the given outcome reports.
    pub open spec fn step_forward_report(self, outcome: StepResult) -> Result<(), SessionError> {
        match refusal(self.state) {
            Some(e) => Err(e),
            None => match outcome {
                StepResult::Faulted(fault) => Err(SessionError::Runtime(fault)),
                _ => Ok(()),
            },
        }
    }

    /// The session after an instruction from outside the program has been
    /// run on its machine, with the given outcome. Any session with a
    /// program takes it: it records the machine and its state as they were,
    /// and then takes the new machine, waits for input, or ends. A fault
    /// changes nothing else: the program is where it was.
    pub open spec fn inject(self, outcome: StepResult) -> SessionModel {
        if self.state != SessionState::NoProgramLoaded {
            let history = self.recorded();
            match outcome {
                StepResult::Completed(machine) => SessionModel { machine, history, ..self },
                StepResult::InputNeeded(kind) => SessionModel {
                    state: SessionState::AwaitingInput(kind),
                    history,
                    ..self
                },
                StepResult::Exited => SessionModel { state: SessionState::Terminated, history, ..self },
                StepResult::Faulted(_) => SessionModel { history, ..self },
            }
        } else {
            self
        }
    }

    /// What running an instruction from outside the program reports.
    pub open spec fn inject_report(self, outcome: StepResult) -> Result<(), SessionError> {
        if self.state == SessionState::NoProgramLoaded {
            Err(SessionError::MustLoadFile)
        } else {
            match outcome {
                StepResult::Faulted(fault) => Err(SessionError::Runtime(fault)),
                _ => Ok(()),
            }
        }
    }

    /// Whether a backward step has a snapshot to return to.
    pub open spec fn can_step_back(self) -> bool {
        self.state != SessionState::NoProgramLoaded && self.history.len() > 0
    }

    /// The session after a backward step: the latest snapshot is taken off
    /// the history and restored. Without a program or a snapshot the
    /// session stays as it is.
    pub open spec fn step_back(self) -> SessionModel {
        if self.can_step_back() {
            SessionModel {
                state: self.history.last().state,
                machine: self.history.last().machine,
                history: self.history.drop_last(),
            }
        } else {
            self
        }
    }

    /// What a backward step reports.
    pub open spec fn step_back_report(self) -> Result<(), SessionError> {
        if self.state == SessionState::NoProgramLoaded {
            Err(SessionError::MustLoadFile)
        } else if self.history.len() == 0 {
            Err(SessionError::NothingToStepBack)
        } else {
            Ok(())
        }
    }

    /// Whether the session waits for a value that goes to a register: an
    /// integer or a character.
    pub open spec fn awaits_register_value(self) -> bool {
        self.state == SessionState::AwaitingInput(ReadSyscalls::ReadInt) || self.state
            == SessionState::AwaitingInput(ReadSyscalls::ReadChar)
    }

    /// The session after `value` has been supplied to a program that waits
    /// for an integer or a character: the value stands in the result
    /// register, the program counter is on the next instruction, and the
    /// session is idle again. Any other session stays as it is.
    pub open spec fn supply(self, value: i32) -> SessionModel {
        if self.awaits_register_value() {
            SessionModel {
                state: SessionState::LoadedIdle,
                machine: MachineModel {
                    registers: self.machine.registers.update(V0 as int, Some(value)),
                    pc: if self.machine.pc <= u32::MAX - INSTRUCTION_BYTES {
                        (self.machine.pc + INSTRUCTION_BYTES) as u32
                    } else {
                        (self.machine.pc + INSTRUCTION_BYTES - 0x1_0000_0000) as u32
                    },
                    ..self.machine
                },
                history: self.history,
            }
        } else {
            self
        }
    }

    /// Whether the session waits for input that does not go to a register:
    /// a float, a double or a string.
    pub open spec fn awaits_other_value(self) -> bool {
        self.state matches SessionState::AwaitingInput(kind) && kind != ReadSyscalls::ReadInt
            && kind != ReadSyscalls::ReadChar
    }

    /// The session after a waiting program has been resumed on `machine`,
    /// the state in which its input has been stored.
    pub open spec fn resume(self, machine: MachineModel) -> SessionModel {
        if self.awaits_other_value() {
            SessionModel { state: SessionState::LoadedIdle, machine, history: self.history }
        } else {
            self
        }
    }

    /// What supplying input reports, given whether the session waits for
    /// input of that sort.
    pub open spec fn input_report(self, awaited: bool) -> Result<(), SessionError> {
        if self.state == SessionState::NoProgramLoaded {
            Err(SessionError::MustLoadFile)
        } else if awaited {
            Ok(())
        } else {
            Err(SessionError::NotAwaitingInput)
        }
    }
}

/// The session that the debugger controls.
#[derive(Debug)]
pub struct Session {
    state: SessionState,
    machine: MachineState,
    history: Vec<HistorySnapshot>,
}

/// What the snapshots hold, one for one.
pub open spec fn snapshots(history: Seq<HistorySnapshot>) -> Seq<SnapshotModel> {
    history.map_values(|s: HistorySnapshot| s@)
}

impl View for Session {
    type V = SessionModel;

    closed spec fn view(&self) -> SessionModel {
        SessionModel { state: self.state, machine: self.machine@, history: snapshots(self.history@) }
    }
}

impl Session {
    /// A session with no program loaded.
    pub fn new() -> (s: Session)
        ensures
            s@ == SessionModel::empty(),
    {
        let s = Session {
            state: SessionState::NoProgramLoaded,
            machine: MachineState::new(0),
            history: Vec::new(),
        };
        assert(snapshots(s.history@) =~= Seq::empty());
        s
    }

    /// The state the session is in.
    pub fn state(&self) -> (state: SessionState)
        ensures
            state == self@.state,
    {
        self.state
    }

    /// The machine as it stands.
    pub fn machine(&self) -> (machine: &MachineState)
        ensures
            machine@ == self@.machine,
    {
        &self.machine
    }

    /// How many snapshots the history holds.
    pub fn history_len(&self) -> (n: usize)
        ensures
            n == self@.history.len(),
    {
        self.history.len()
    }

    /// Takes up a program that has been assembled, on the machine state it
    /// starts from. What was loaded before is given up with its history.
    pub fn load(&mut self, machine: MachineState)
        ensures
            final(self)@ == SessionModel::loaded(machine@),
    {
        self.state = SessionState::LoadedIdle;
        self.machine = machine;
        self.history = Vec::new();
        assert(snapshots(self.history@) =~= Seq::empty());
    }

    /// Gives up the program, the machine state, a pending request for
    /// input, and all history.
    pub fn reset(&mut self)
        ensures
            final(self)@ == SessionModel::empty(),
    {
        self.state = SessionState::NoProgramLoaded;
        self.machine = MachineState::new(0);
        self.history = Vec::new();
        assert(snapshots(self.history@) =~= Seq::empty());
    }

    /// Records `machine` with the state the session is in.
    fn push_snapshot(&mut self, machine: MachineState)
        ensures
            final(self)@ == (SessionModel {
                history: old(self)@.history.push(
                    SnapshotModel { machine: machine@, state: old(self)@.state },
                ),
                ..old(self)@
            }),
    {
        self.history.push(HistorySnapshot { machine, state: self.state });
        assert(snapshots(self.history@) =~= snapshots(old(self).history@).push(
            SnapshotModel { machine: machine@, state: old(self)@.state },
        ));
    }

    /// Records the machine as it stands, and then takes in `outcome`.
    fn record_and_take(&mut self, outcome: StepOutcome)
        ensures
            final(self)@.history == old(self)@.recorded(),
            final(self)@.machine == match outcome@ {
                StepResult::Completed(machine) => machine,
                _ => old(self)@.machine,
            },
            final(self)@.state == match outcome@ {
                StepResult::InputNeeded(kind) => SessionState::AwaitingInput(kind),
                StepResult::Exited => SessionState::Terminated,
                _ => old(self)@.state,
            },
    {
        match outcome {
            StepOutcome::Completed(next) => {
                let mut before = next;
                core::mem::swap(&mut self.machine, &mut before);
                self.push_snapshot(before);
            },
            StepOutcome::InputNeeded(kind) => {
                let before = self.machine.clone();
                self.push_snapshot(before);
                self.state = SessionState::AwaitingInput(kind);
            },
            StepOutcome::Exited => {
                let before = self.machine.clone();
                self.push_snapshot(before);
                self.state = SessionState::Terminated;
            },
            StepOutcome::Faulted(_) => {
                let before = self.machine.clone();
                self.push_snapshot(before);
            },
        }
    }

    /// Takes in what came of running, on the machine as it stands, an
    /// instruction that is not the program's own. Any session with a
    /// program records a snapshot and takes the outcome; a fault is
    /// reported and leaves the program where it was. A session without a
    /// program refuses and stays as it is.
    pub fn inject(&mut self, outcome: StepOutcome) -> (r: Result<(), SessionError>)
        ensures
            final(self)@ == old(self)@.inject(outcome@),
            r == old(self)@.inject_report(outcome@),
    {
        if self.state == SessionState::NoProgramLoaded {
            return Err(SessionError::MustLoadFile);
        }
        let report = match &outcome {
            StepOutcome::Faulted(fault) => Err(SessionError::Runtime(*fault)),
            _ => Ok(()),
        };
        self.record_and_take(outcome);
        report
    }

    /// Takes in what came of running the next instruction on the machine as
    /// it stands. An idle session records a snapshot of the machine as it
    /// was and moves on; a fault ends the program and is reported. Any
    /// other session refuses and stays as it is.
    pub fn step_forward(&mut self, outcome: StepOutcome) -> (r: Result<(), SessionError>)
        ensures
            final(self)@ == old(self)@.step_forward(outcome@),
            r == old(self)@.step_forward_report(outcome@),
    {
        match self.state {
            SessionState::NoProgramLoaded => {
                return Err(SessionError::MustLoadFile);
            },
            SessionState::AwaitingInput(_) => {
                return Err(SessionError::InputPending);
            },
            SessionState::Terminated => {
                return Err(SessionError::ProgramEnded);
            },
            SessionState::LoadedIdle => {},
        }
        let report = match &outcome {
            StepOutcome::Faulted(fault) => Err(SessionError::Runtime(*fault)),
            _ => Ok(()),
        };
        let faulted = report.is_err();
        self.record_and_take(outcome);
        if faulted {
            self.state = SessionState::Terminated;
        }
        report
    }

    /// Returns to the latest snapshot and takes it off the history. A
    /// session without a program or without history refuses and stays as
    /// it is.
    pub fn step_back(&mut self) -> (r: Result<(), SessionError>)
        ensures
            final(self)@ == old(self)@.step_back(),
            r == old(self)@.step_back_report(),
    {
        if self.state == SessionState::NoProgramLoaded {
            return Err(SessionError::MustLoadFile);
        }
        match self.history.pop() {
            Some(snapshot) => {
                assert(snapshots(self.history@) =~= snapshots(old(self).history@).drop_last());
                assert(snapshots(old(self).history@).last() == snapshot@);
                self.state = snapshot.state;
                self.machine = snapshot.machine;
                Ok(())
            },
            None => {
                assert(snapshots(self.history@) =~= snapshots(old(self).history@));
                Err(SessionError::NothingToStepBack)
            },
        }
    }

    /// Supplies the integer or the character that the program waits for:
    /// the value is written to the result register, the program counter
    /// moves to the next instruction, and the session is idle again. A
    /// session that waits for nothing of the sort refuses and stays as it
    /// is.
    pub fn supply_input(&mut self, value: i32) -> (r: Result<(), SessionError>)
        ensures
            final(self)@ == old(self)@.supply(value),
            r == old(self)@.input_report(old(self)@.awaits_register_value()),
    {
        match self.state {
            SessionState::NoProgramLoaded => Err(SessionError::MustLoadFile),
            SessionState::AwaitingInput(ReadSyscalls::ReadInt) | SessionState::AwaitingInput(
                ReadSyscalls::ReadChar,
            ) => {
                let pc = self.machine.pc();
                proof {
                    self.machine.lemma_register_count();
                }
                self.machine.write_register(V0, value);
                self.machine.set_pc(pc.wrapping_add(INSTRUCTION_BYTES));
                self.state = SessionState::LoadedIdle;
                Ok(())
            },
            _ => Err(SessionError::NotAwaitingInput),
        }
    }

    /// Resumes a program that waits for a float, a double or a string, on
    /// the machine state in which that input has been stored. A session
    /// that waits for nothing of the sort refuses and stays as it is.
    pub fn resume_with(&mut self, machine: MachineState) -> (r: Result<(), SessionError>)
        ensures
            final(self)@ == old(self)@.resume(machine@),
            r == old(self)@.input_report(old(self)@.awaits_other_value()),
    {
        match self.state {
            SessionState::NoProgramLoaded => Err(SessionError::MustLoadFile),
            SessionState::AwaitingInput(ReadSyscalls::ReadFloat) | SessionState::AwaitingInput(
                ReadSyscalls::ReadDouble,
            ) | SessionState::AwaitingInput(ReadSyscalls::ReadString) => {
                self.machine = machine;
                self.state = SessionState::LoadedIdle;
                Ok(())
            },
            _ => Err(SessionError::NotAwaitingInput),
        }
    }
}

impl SessionModel {
    /// The session after forward steps with the given outcomes, one after
    /// the other.
    pub open spec fn run(self, outcomes: Seq<StepResult>) -> SessionModel
        decreases outcomes.len(),
    {
        if outcomes.len() == 0 {
            self
        } else {
            self.run(outcomes.drop_last()).step_forward(outcomes.last())
        }
    }
}

/// Stepping back after a forward step restores the session as it was before
/// the step: the same machine, bit for bit, the same state and the same
/// history.
pub proof fn lemma_step_back_undoes_step(s: SessionModel, outcome: StepResult)
    requires
        s.state == SessionState::LoadedIdle,
    ensures
        s.step_forward(outcome).step_back() == s,
        s.step_forward(outcome).step_back_report() == Ok::<(), SessionError>(()),
{
    assert(s.recorded().drop_last() =~= s.history);
}

/// Stepping back after an instruction from outside the program restores the
/// session as it was before that instruction, whatever state it was in.
pub proof fn lemma_step_back_undoes_inject(s: SessionModel, outcome: StepResult)
    requires
        s.state != SessionState::NoProgramLoaded,
    ensures
        s.inject(outcome).step_back() == s,
        s.inject(outcome).step_back_report() == Ok::<(), SessionError>(()),
{
    assert(s.recorded().drop_last() =~= s.history);
}

/// Stepping back after any number of forward steps restores the session as
/// it was immediately before the last of them, provided that step was
/// taken, which is to say that the session was idle when it came.
pub proof fn lemma_step_back_after_steps(s: SessionModel, outcomes: Seq<StepResult>)
    requires
        outcomes.len() > 0,
        s.run(outcomes.drop_last()).state == SessionState::LoadedIdle,
    ensures
        s.run(outcomes).step_back() == s.run(outcomes.drop_last()),
{
    lemma_step_back_undoes_step(s.run(outcomes.drop_last()), outcomes.last());
}

/// Stepping back with an empty history changes nothing, and where a program
/// is loaded it reports that there is nothing to step back to.
pub proof fn lemma_step_back_on_empty_history(s: SessionModel)
    requires
        s.history.len() == 0,
    ensures
        s.step_back() == s,
        s.step_back_report() is Err,
        s.state != SessionState::NoProgramLoaded ==> s.step_back_report() == Err::<
            (),
            SessionError,
        >(SessionError::NothingToStepBack),
{
}

/// A request for an integer suspends an idle session; supplying the value
/// makes it idle again with the value in the result register, every other
/// register and all memory as they were, and the program counter on the
/// instruction behind the request.
pub proof fn lemma_integer_request_round_trip(s: SessionModel, value: i32)
    requires
        s.state == SessionState::LoadedIdle,
        s.machine.registers.len() == 32,
    ensures
        ({
            let waiting = s.step_forward(StepResult::InputNeeded(ReadSyscalls::ReadInt));
            let resumed = waiting.supply(value);
            &&& waiting.state == SessionState::AwaitingInput(ReadSyscalls::ReadInt)
            &&& waiting.machine == s.machine
            &&& waiting.input_report(waiting.awaits_register_value()) == Ok::<(), SessionError>(())
            &&& resumed.state == SessionState::LoadedIdle
            &&& resumed.machine.registers[V0 as int] == Some(value)
            &&& forall|k: int|
                0 <= k < 32 && k != V0 ==> resumed.machine.registers[k] == s.machine.registers[k]
            &&& resumed.machine.memory == s.machine.memory
            &&& resumed.machine.pc == (s.machine.pc + INSTRUCTION_BYTES) % 0x1_0000_0000
            &&& refusal(resumed.state) is None
        }),
{
}

} // verus!
