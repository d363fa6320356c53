use mipsy::machine::{MachineState, RuntimeFault, REGISTER_COUNT};
use mipsy::session::{
    ReadSyscalls, Session, SessionError, SessionState, StepOutcome, INSTRUCTION_BYTES, V0,
};

fn machine(pc: u32, writes: &[(u8, i32)]) -> MachineState {
    let mut m = MachineState::new(pc);
    for (index, value) in writes {
        m.write_register(*index, *value);
    }
    m
}

fn loaded(pc: u32) -> Session {
    let mut s = Session::new();
    s.load(MachineState::new(pc));
    s
}

#[test]
fn a_new_machine_has_nothing_written() {
    let m = MachineState::new(0x400000);
    assert_eq!(m.pc(), 0x400000);
    assert_eq!(REGISTER_COUNT, 32);
    for index in 0..32u8 {
        assert_eq!(m.read_register(index), Err(RuntimeFault::UninitialisedRegister(index)));
    }
    assert_eq!(m.read_byte(0), Err(RuntimeFault::UninitialisedMemory(0)));
    assert_eq!(
        m.read_byte(0x10010000),
        Err(RuntimeFault::UninitialisedMemory(0x10010000))
    );
}

#[test]
fn registers_and_memory_hold_what_is_written() {
    let mut m = MachineState::new(0);
    m.write_register(0, 0);
    m.write_register(31, -1);
    m.write_register(8, 5);
    m.write_register(8, 6);
    m.write_byte(0x10010000, 0xab);
    m.write_byte(u32::MAX, 1);
    m.set_pc(0x400004);
    assert_eq!(m.read_register(0), Ok(0));
    assert_eq!(m.read_register(8), Ok(6));
    assert_eq!(m.read_register(31), Ok(-1));
    assert_eq!(m.read_register(9), Err(RuntimeFault::UninitialisedRegister(9)));
    assert_eq!(m.read_byte(0x10010000), Ok(0xab));
    assert_eq!(m.read_byte(u32::MAX), Ok(1));
    assert_eq!(m.read_byte(0x10010001), Err(RuntimeFault::UninitialisedMemory(0x10010001)));
    assert_eq!(m.pc(), 0x400004);
    let copy = m.clone();
    assert_eq!(copy, m);
    m.write_byte(0, 0);
    assert_ne!(copy, m);
}

#[test]
fn a_session_starts_without_a_program() {
    let mut s = Session::new();
    assert_eq!(s.state(), SessionState::NoProgramLoaded);
    assert_eq!(s.history_len(), 0);
    assert_eq!(
        s.step_forward(StepOutcome::Completed(MachineState::new(4))),
        Err(SessionError::MustLoadFile)
    );
    assert_eq!(s.inject(StepOutcome::Exited), Err(SessionError::MustLoadFile));
    assert_eq!(s.step_back(), Err(SessionError::MustLoadFile));
    assert_eq!(s.supply_input(1), Err(SessionError::MustLoadFile));
    assert_eq!(s.resume_with(MachineState::new(4)), Err(SessionError::MustLoadFile));
    assert_eq!(s.state(), SessionState::NoProgramLoaded);
    assert_eq!(s.history_len(), 0);
    assert_eq!(*s.machine(), MachineState::new(0));
}

#[test]
fn loading_makes_the_session_idle() {
    let mut s = Session::new();
    s.load(machine(0x400000, &[(29, 0x7ffffffc)]));
    assert_eq!(s.state(), SessionState::LoadedIdle);
    assert_eq!(s.history_len(), 0);
    assert_eq!(s.machine().pc(), 0x400000);
    assert_eq!(s.machine().read_register(29), Ok(0x7ffffffc));
}

#[test]
fn a_forward_step_records_a_snapshot() {
    let mut s = loaded(0x400000);
    assert_eq!(
        s.step_forward(StepOutcome::Completed(machine(0x400004, &[(8, 5)]))),
        Ok(())
    );
    assert_eq!(s.state(), SessionState::LoadedIdle);
    assert_eq!(s.history_len(), 1);
    assert_eq!(*s.machine(), machine(0x400004, &[(8, 5)]));
}

#[test]
fn stepping_back_restores_the_state_before_the_last_step() {
    let mut s = loaded(0x400000);
    let states = [
        machine(0x400004, &[(8, 1)]),
        machine(0x400008, &[(8, 1), (9, 2)]),
        machine(0x40000c, &[(8, 3), (9, 2)]),
        machine(0x400010, &[(8, 3), (9, 2), (10, 4)]),
    ];
    for state in states.iter() {
        assert_eq!(s.step_forward(StepOutcome::Completed(state.clone())), Ok(()));
    }
    assert_eq!(s.history_len(), 4);
    assert_eq!(s.step_back(), Ok(()));
    assert_eq!(*s.machine(), states[2]);
    assert_eq!(s.step_back(), Ok(()));
    assert_eq!(*s.machine(), states[1]);
    assert_eq!(s.step_back(), Ok(()));
    assert_eq!(*s.machine(), states[0]);
    assert_eq!(s.step_back(), Ok(()));
    assert_eq!(*s.machine(), MachineState::new(0x400000));
    assert_eq!(s.state(), SessionState::LoadedIdle);
    assert_eq!(s.history_len(), 0);
}

#[test]
fn stepping_back_restores_memory_too() {
    let mut s = loaded(0x400000);
    let mut next = MachineState::new(0x400004);
    next.write_byte(0x10010000, 7);
    assert_eq!(s.step_forward(StepOutcome::Completed(next)), Ok(()));
    assert_eq!(s.machine().read_byte(0x10010000), Ok(7));
    assert_eq!(s.step_back(), Ok(()));
    assert_eq!(
        s.machine().read_byte(0x10010000),
        Err(RuntimeFault::UninitialisedMemory(0x10010000))
    );
}

#[test]
fn stepping_back_with_empty_history_changes_nothing() {
    let mut s = Session::new();
    s.load(machine(0x400000, &[(4, 9)]));
    assert_eq!(s.step_back(), Err(SessionError::NothingToStepBack));
    assert_eq!(s.state(), SessionState::LoadedIdle);
    assert_eq!(*s.machine(), machine(0x400000, &[(4, 9)]));
    assert_eq!(s.history_len(), 0);
}

#[test]
fn a_request_for_an_integer_suspends_until_it_is_supplied() {
    let mut s = Session::new();
    s.load(machine(0x400000, &[(V0, 5), (4, 1)]));
    assert_eq!(s.step_forward(StepOutcome::InputNeeded(ReadSyscalls::ReadInt)), Ok(()));
    assert_eq!(s.state(), SessionState::AwaitingInput(ReadSyscalls::ReadInt));
    assert_eq!(s.history_len(), 1);
    assert_eq!(*s.machine(), machine(0x400000, &[(V0, 5), (4, 1)]));
    assert_eq!(
        s.step_forward(StepOutcome::Completed(MachineState::new(0))),
        Err(SessionError::InputPending)
    );
    assert_eq!(s.resume_with(MachineState::new(0)), Err(SessionError::NotAwaitingInput));
    assert_eq!(s.state(), SessionState::AwaitingInput(ReadSyscalls::ReadInt));
    assert_eq!(s.supply_input(-42), Ok(()));
    assert_eq!(s.state(), SessionState::LoadedIdle);
    assert_eq!(*s.machine(), machine(0x400004, &[(V0, -42), (4, 1)]));
    assert_eq!(INSTRUCTION_BYTES, 4);
    assert_eq!(s.history_len(), 1);
    assert_eq!(
        s.step_forward(StepOutcome::Completed(machine(0x400008, &[(V0, -42), (4, 1)]))),
        Ok(())
    );
    assert_eq!(s.supply_input(1), Err(SessionError::NotAwaitingInput));
}

#[test]
fn a_character_goes_to_the_result_register_too() {
    let mut s = loaded(u32::MAX - 3);
    assert_eq!(s.step_forward(StepOutcome::InputNeeded(ReadSyscalls::ReadChar)), Ok(()));
    assert_eq!(s.supply_input(b'x' as i32), Ok(()));
    assert_eq!(s.machine().read_register(V0), Ok(120));
    assert_eq!(s.machine().pc(), 0);
    assert_eq!(s.state(), SessionState::LoadedIdle);
}

#[test]
fn other_input_is_stored_by_whoever_resumes() {
    for kind in [ReadSyscalls::ReadFloat, ReadSyscalls::ReadDouble, ReadSyscalls::ReadString] {
        let mut s = loaded(0x400000);
        assert_eq!(s.step_forward(StepOutcome::InputNeeded(kind)), Ok(()));
        assert_eq!(s.state(), SessionState::AwaitingInput(kind));
        assert_eq!(s.supply_input(1), Err(SessionError::NotAwaitingInput));
        assert_eq!(s.state(), SessionState::AwaitingInput(kind));
        let mut stored = MachineState::new(0x400004);
        stored.write_byte(0x10010000, b'h');
        assert_eq!(s.resume_with(stored.clone()), Ok(()));
        assert_eq!(s.state(), SessionState::LoadedIdle);
        assert_eq!(*s.machine(), stored);
        assert_eq!(s.history_len(), 1);
    }
}

#[test]
fn stepping_back_gives_up_a_pending_request() {
    let mut s = loaded(0x400000);
    assert_eq!(s.step_forward(StepOutcome::InputNeeded(ReadSyscalls::ReadString)), Ok(()));
    assert_eq!(s.step_back(), Ok(()));
    assert_eq!(s.state(), SessionState::LoadedIdle);
    assert_eq!(s.history_len(), 0);
}

#[test]
fn exit_and_fault_end_the_program() {
    let mut s = loaded(0x400000);
    assert_eq!(s.step_forward(StepOutcome::Exited), Ok(()));
    assert_eq!(s.state(), SessionState::Terminated);
    assert_eq!(
        s.step_forward(StepOutcome::Completed(MachineState::new(0))),
        Err(SessionError::ProgramEnded)
    );
    assert_eq!(s.supply_input(0), Err(SessionError::NotAwaitingInput));
    assert_eq!(s.history_len(), 1);
    assert_eq!(s.step_back(), Ok(()));
    assert_eq!(s.state(), SessionState::LoadedIdle);

    let fault = RuntimeFault::UninitialisedRegister(9);
    assert_eq!(
        s.step_forward(StepOutcome::Faulted(fault)),
        Err(SessionError::Runtime(fault))
    );
    assert_eq!(s.state(), SessionState::Terminated);
    assert_eq!(*s.machine(), MachineState::new(0x400000));
    assert_eq!(s.history_len(), 1);
}

#[test]
fn an_injected_instruction_runs_in_any_loaded_state() {
    let mut s = loaded(0x400000);
    assert_eq!(s.step_forward(StepOutcome::Exited), Ok(()));
    assert_eq!(s.inject(StepOutcome::Completed(machine(0x400000, &[(8, 5)]))), Ok(()));
    assert_eq!(s.state(), SessionState::Terminated);
    assert_eq!(s.machine().read_register(8), Ok(5));
    assert_eq!(s.history_len(), 2);
    assert_eq!(s.step_back(), Ok(()));
    assert_eq!(s.state(), SessionState::Terminated);
    assert_eq!(*s.machine(), MachineState::new(0x400000));

    let mut s = loaded(0x400000);
    assert_eq!(s.step_forward(StepOutcome::InputNeeded(ReadSyscalls::ReadInt)), Ok(()));
    assert_eq!(s.inject(StepOutcome::Completed(machine(0x400000, &[(8, 5)]))), Ok(()));
    assert_eq!(s.state(), SessionState::AwaitingInput(ReadSyscalls::ReadInt));
    assert_eq!(s.step_back(), Ok(()));
    assert_eq!(s.state(), SessionState::AwaitingInput(ReadSyscalls::ReadInt));
    assert_eq!(s.supply_input(3), Ok(()));
}

#[test]
fn an_injected_fault_leaves_the_program_where_it_was() {
    let mut s = loaded(0x400000);
    let fault = RuntimeFault::InvalidMemoryAccess(3);
    assert_eq!(s.inject(StepOutcome::Faulted(fault)), Err(SessionError::Runtime(fault)));
    assert_eq!(s.state(), SessionState::LoadedIdle);
    assert_eq!(*s.machine(), MachineState::new(0x400000));
    assert_eq!(s.history_len(), 1);
    assert_eq!(s.inject(StepOutcome::InputNeeded(ReadSyscalls::ReadChar)), Ok(()));
    assert_eq!(s.state(), SessionState::AwaitingInput(ReadSyscalls::ReadChar));
    assert_eq!(s.inject(StepOutcome::Exited), Ok(()));
    assert_eq!(s.state(), SessionState::Terminated);
    assert_eq!(s.history_len(), 3);
}

#[test]
fn reset_and_reload_give_up_the_history() {
    let mut s = loaded(0x400000);
    assert_eq!(s.step_forward(StepOutcome::Completed(machine(0x400004, &[(8, 1)]))), Ok(()));
    assert_eq!(s.step_forward(StepOutcome::InputNeeded(ReadSyscalls::ReadInt)), Ok(()));
    s.reset();
    assert_eq!(s.state(), SessionState::NoProgramLoaded);
    assert_eq!(s.history_len(), 0);
    assert_eq!(*s.machine(), MachineState::new(0));
    assert_eq!(s.step_back(), Err(SessionError::MustLoadFile));

    let mut s = loaded(0x400000);
    assert_eq!(s.step_forward(StepOutcome::Exited), Ok(()));
    s.load(MachineState::new(0x400100));
    assert_eq!(s.state(), SessionState::LoadedIdle);
    assert_eq!(s.history_len(), 0);
    assert_eq!(s.step_back(), Err(SessionError::NothingToStepBack));
}

#[test]
fn every_fault_is_reported_as_it_came() {
    for fault in [
        RuntimeFault::UninitialisedRegister(31),
        RuntimeFault::UninitialisedMemory(0x7fff_fffc),
        RuntimeFault::InvalidMemoryAccess(0),
        RuntimeFault::Arithmetic,
        RuntimeFault::UnknownSyscall(99),
    ] {
        let mut s = loaded(0x400000);
        assert_eq!(
            s.step_forward(StepOutcome::Faulted(fault)),
            Err(SessionError::Runtime(fault))
        );
        assert_eq!(s.state(), SessionState::Terminated);
        let mut s = loaded(0x400000);
        assert_eq!(s.inject(StepOutcome::Faulted(fault)), Err(SessionError::Runtime(fault)));
        assert_eq!(s.state(), SessionState::LoadedIdle);
    }
}
