use mipsy::command::CommandError;
use mipsy::dot::{join_args, DotCommand, DotReply, DotRequest, DotStage};
use mipsy::machine::{MachineState, RuntimeFault};
use mipsy::session::{ReadSyscalls, Session, SessionState, StepOutcome};

fn args(words: &[&str]) -> Vec<String> {
    words.iter().map(|w| w.to_string()).collect()
}

fn loaded() -> Session {
    let mut s = Session::new();
    s.load(MachineState::new(0x400000));
    s
}

fn after(pc: u32, value: i32) -> MachineState {
    let mut m = MachineState::new(pc);
    m.write_register(8, value);
    m
}

#[test]
fn arguments_are_joined_by_single_spaces() {
    assert_eq!(join_args(&args(&[])), "");
    assert_eq!(join_args(&args(&["nop"])), "nop");
    assert_eq!(join_args(&args(&["addi", "$t0,", "$zero,", "5"])), "addi $t0, $zero, 5");
    assert_eq!(join_args(&args(&["a", "", "b"])), "a  b");
}

#[test]
fn the_command_starts_by_asking_for_the_parse() {
    let session = loaded();
    let (command, request) = DotCommand::start(&session, &args(&["li", "$t0,", "5"]));
    assert_eq!(request, DotRequest::Parse);
    assert_eq!(command.line(), "li $t0, 5");
    assert_eq!(command.stage(), DotStage::Parsing);
}

#[test]
fn without_a_program_a_good_line_fails_and_changes_nothing() {
    let mut session = Session::new();
    let (command, request) =
        DotCommand::start(&session, &args(&["addi", "$t0,", "$zero,", "5"]));
    assert_eq!(request, DotRequest::Finish(Err(CommandError::MustLoadFile)));
    assert_eq!(command.stage(), DotStage::Finished);
    assert_eq!(command.line(), "addi $t0, $zero, 5");
    assert_eq!(session.state(), SessionState::NoProgramLoaded);
    assert_eq!(session.history_len(), 0);
    assert_eq!(*session.machine(), MachineState::new(0));
    // the command has ended: whatever is reported now is out of turn
    let (command, request) = command.advance(&mut session, DotReply::Passed);
    assert_eq!(request, DotRequest::Finish(Err(CommandError::UnexpectedReply)));
    assert_eq!(command.stage(), DotStage::Finished);
    assert_eq!(session.state(), SessionState::NoProgramLoaded);
    assert_eq!(*session.machine(), MachineState::new(0));
}

#[test]
fn without_a_program_any_line_fails_for_want_of_a_program() {
    let session = Session::new();
    for words in [
        &["addi", "$t0"][..],
        &["this", "is", "no", "instruction"][..],
        &[""][..],
        &[][..],
        &["j", "nowhere"][..],
    ] {
        let (command, request) = DotCommand::start(&session, &args(words));
        assert_eq!(request, DotRequest::Finish(Err(CommandError::MustLoadFile)));
        assert_eq!(command.stage(), DotStage::Finished);
    }
    assert_eq!(session.state(), SessionState::NoProgramLoaded);
    assert_eq!(session.history_len(), 0);
    assert_eq!(*session.machine(), MachineState::new(0));
}

#[test]
fn a_session_that_lost_its_program_ends_the_command_at_every_stage() {
    let replies = [
        // parse awaited, then shape check, then program check, then encoding
        vec![],
        vec![DotReply::Passed],
        vec![DotReply::Passed, DotReply::Passed],
        vec![DotReply::Passed, DotReply::Passed, DotReply::Passed],
    ];
    for so_far in replies {
        for last in [
            DotReply::Passed,
            DotReply::Failed("no such instruction".to_string()),
            DotReply::Encoded(vec![1, 2]),
            DotReply::Ran(StepOutcome::Exited),
        ] {
            let mut session = loaded();
            let (mut command, _) = DotCommand::start(&session, &args(&["addi", "$t0"]));
            for reply in so_far.iter() {
                command = command.advance(&mut session, reply.clone()).0;
            }
            session.reset();
            let (command, request) = command.advance(&mut session, last);
            assert_eq!(request, DotRequest::Finish(Err(CommandError::MustLoadFile)));
            assert_eq!(command.stage(), DotStage::Finished);
            assert_eq!(session.state(), SessionState::NoProgramLoaded);
            assert_eq!(session.history_len(), 0);
            assert_eq!(*session.machine(), MachineState::new(0));
        }
    }
}

#[test]
fn with_a_program_a_bad_line_fails_as_a_bad_line() {
    let mut session = loaded();
    let (command, _) = DotCommand::start(&session, &args(&["addi", "$t0"]));
    let (_, request) = command.advance(&mut session, DotReply::Failed("no such instruction".to_string()));
    assert_eq!(
        request,
        DotRequest::Finish(Err(CommandError::CannotParseLine {
            line: "addi $t0".to_string(),
            error: "no such instruction".to_string(),
        }))
    );
    let (command, _) = DotCommand::start(&session, &args(&["addi", "$t0"]));
    let (command, request) = command.advance(&mut session, DotReply::Passed);
    assert_eq!(request, DotRequest::PreCheck);
    let (_, request) = command.advance(&mut session, DotReply::Failed("too few operands".to_string()));
    assert_eq!(
        request,
        DotRequest::Finish(Err(CommandError::CannotCompileLine {
            line: "addi $t0".to_string(),
            error: "too few operands".to_string(),
        }))
    );
    assert_eq!(session.state(), SessionState::LoadedIdle);
    assert_eq!(session.history_len(), 0);
    assert_eq!(*session.machine(), MachineState::new(0x400000));
}

#[test]
fn the_command_runs_in_any_state_that_has_a_program() {
    let mut session = loaded();
    assert_eq!(session.step_forward(StepOutcome::Exited), Ok(()));
    let (_, request) = DotCommand::start(&session, &args(&["nop"]));
    assert_eq!(request, DotRequest::Parse);
    let mut session = loaded();
    assert_eq!(
        session.step_forward(StepOutcome::InputNeeded(ReadSyscalls::ReadInt)),
        Ok(())
    );
    let (command, request) = DotCommand::start(&session, &args(&["nop"]));
    assert_eq!(request, DotRequest::Parse);
    let (_, request) = command.advance(&mut session, DotReply::Passed);
    assert_eq!(request, DotRequest::PreCheck);
}

#[test]
fn a_single_word_is_run_and_recorded() {
    let mut session = loaded();
    let (command, _) = DotCommand::start(&session, &args(&["addi", "$t0,", "$zero,", "5"]));
    let (command, request) = command.advance(&mut session, DotReply::Passed);
    assert_eq!(request, DotRequest::PreCheck);
    let (command, request) = command.advance(&mut session, DotReply::Passed);
    assert_eq!(request, DotRequest::PostCheck);
    let (command, request) = command.advance(&mut session, DotReply::Passed);
    assert_eq!(request, DotRequest::Encode);
    let (command, request) = command.advance(&mut session, DotReply::Encoded(vec![0x20080005]));
    assert_eq!(request, DotRequest::Execute(0x20080005));
    assert_eq!(command.stage(), DotStage::Executing);
    assert_eq!(session.history_len(), 0);
    let (command, request) = command.advance(
        &mut session,
        DotReply::Ran(StepOutcome::Completed(after(0x400000, 5))),
    );
    assert_eq!(request, DotRequest::Finish(Ok(())));
    assert_eq!(command.stage(), DotStage::Finished);
    assert_eq!(session.history_len(), 1);
    assert_eq!(session.machine().read_register(8), Ok(5));
    assert_eq!(session.state(), SessionState::LoadedIdle);
    assert_eq!(session.step_back(), Ok(()));
    assert_eq!(*session.machine(), MachineState::new(0x400000));
}

fn encoded(session: &mut Session, words: Vec<u32>) -> (DotCommand, DotRequest) {
    let (command, _) = DotCommand::start(session, &args(&["li", "$t0,", "0x12345678"]));
    let (command, _) = command.advance(session, DotReply::Passed);
    let (command, _) = command.advance(session, DotReply::Passed);
    let (command, _) = command.advance(session, DotReply::Passed);
    command.advance(session, DotReply::Encoded(words))
}

#[test]
fn each_word_of_an_expansion_is_run_in_turn() {
    let mut session = loaded();
    let (command, request) = encoded(&mut session, vec![0x3c011234, 0x34285678, 0]);
    assert_eq!(request, DotRequest::Execute(0x3c011234));
    let (command, request) =
        command.advance(&mut session, DotReply::Ran(StepOutcome::Completed(after(0x400000, 1))));
    assert_eq!(request, DotRequest::Execute(0x34285678));
    assert_eq!(session.history_len(), 1);
    let (command, request) =
        command.advance(&mut session, DotReply::Ran(StepOutcome::Completed(after(0x400000, 2))));
    assert_eq!(request, DotRequest::Execute(0));
    assert_eq!(session.history_len(), 2);
    let (command, request) =
        command.advance(&mut session, DotReply::Ran(StepOutcome::Completed(after(0x400000, 3))));
    assert_eq!(request, DotRequest::Finish(Ok(())));
    assert_eq!(command.stage(), DotStage::Finished);
    assert_eq!(session.history_len(), 3);
    assert_eq!(session.machine().read_register(8), Ok(3));
}

#[test]
fn a_fault_stops_the_expansion_and_keeps_what_ran_before() {
    let mut session = loaded();
    let (command, _) = encoded(&mut session, vec![1, 2, 3]);
    let (command, request) =
        command.advance(&mut session, DotReply::Ran(StepOutcome::Completed(after(0x400000, 1))));
    assert_eq!(request, DotRequest::Execute(2));
    let fault = RuntimeFault::UninitialisedRegister(9);
    let (command, request) =
        command.advance(&mut session, DotReply::Ran(StepOutcome::Faulted(fault)));
    assert_eq!(
        request,
        DotRequest::Finish(Err(CommandError::ReplRuntimeError {
            fault,
            line: "li $t0, 0x12345678".to_string(),
        }))
    );
    assert_eq!(command.stage(), DotStage::Finished);
    assert_eq!(session.machine().read_register(8), Ok(1));
    assert_eq!(session.state(), SessionState::LoadedIdle);
    assert_eq!(session.history_len(), 2);
}

#[test]
fn later_stages_fail_as_lines_that_cannot_be_compiled() {
    let mut session = loaded();
    let (command, _) = DotCommand::start(&session, &args(&["j", "nowhere"]));
    let (command, _) = command.advance(&mut session, DotReply::Passed);
    let (command, _) = command.advance(&mut session, DotReply::Passed);
    let (_, request) = command.advance(&mut session, DotReply::Failed("unknown label".to_string()));
    assert_eq!(
        request,
        DotRequest::Finish(Err(CommandError::CannotCompileLine {
            line: "j nowhere".to_string(),
            error: "unknown label".to_string(),
        }))
    );
    let (command, _) = DotCommand::start(&session, &args(&["j", "nowhere"]));
    let (command, _) = command.advance(&mut session, DotReply::Passed);
    let (command, _) = command.advance(&mut session, DotReply::Passed);
    let (command, _) = command.advance(&mut session, DotReply::Passed);
    let (_, request) = command.advance(&mut session, DotReply::Failed("out of range".to_string()));
    assert_eq!(
        request,
        DotRequest::Finish(Err(CommandError::CannotCompileLine {
            line: "j nowhere".to_string(),
            error: "out of range".to_string(),
        }))
    );
    assert_eq!(session.history_len(), 0);
}

#[test]
fn an_instruction_without_words_ends_at_once() {
    let mut session = loaded();
    let (command, request) = encoded(&mut session, vec![]);
    assert_eq!(request, DotRequest::Finish(Ok(())));
    assert_eq!(command.stage(), DotStage::Finished);
    assert_eq!(session.history_len(), 0);
}

#[test]
fn a_report_out_of_turn_ends_the_command() {
    let mut session = loaded();
    let (command, _) = DotCommand::start(&session, &args(&["nop"]));
    let (command, request) = command.advance(&mut session, DotReply::Encoded(vec![0]));
    assert_eq!(request, DotRequest::Finish(Err(CommandError::UnexpectedReply)));
    let (command, request) = command.advance(&mut session, DotReply::Passed);
    assert_eq!(request, DotRequest::Finish(Err(CommandError::UnexpectedReply)));
    assert_eq!(command.stage(), DotStage::Finished);
    let (command, _) = DotCommand::start(&session, &args(&["nop"]));
    let (_, request) = command.advance(&mut session, DotReply::Ran(StepOutcome::Exited));
    assert_eq!(request, DotRequest::Finish(Err(CommandError::UnexpectedReply)));
    let (command, _) = encoded(&mut session, vec![1]);
    let (_, request) = command.advance(&mut session, DotReply::Failed("late".to_string()));
    assert_eq!(request, DotRequest::Finish(Err(CommandError::UnexpectedReply)));
    assert_eq!(session.history_len(), 0);
    assert_eq!(session.state(), SessionState::LoadedIdle);
}

#[test]
fn a_session_reset_under_the_command_refuses_the_word() {
    let mut session = loaded();
    let (command, _) = encoded(&mut session, vec![1]);
    session.reset();
    let (_, request) =
        command.advance(&mut session, DotReply::Ran(StepOutcome::Completed(after(0, 1))));
    assert_eq!(request, DotRequest::Finish(Err(CommandError::MustLoadFile)));
    assert_eq!(session.state(), SessionState::NoProgramLoaded);
    assert_eq!(*session.machine(), MachineState::new(0));
}

#[test]
fn an_injected_system_call_suspends_the_session() {
    let mut session = loaded();
    let (command, _) = encoded(&mut session, vec![0xc]);
    let (_, request) = command.advance(
        &mut session,
        DotReply::Ran(StepOutcome::InputNeeded(ReadSyscalls::ReadInt)),
    );
    assert_eq!(request, DotRequest::Finish(Ok(())));
    assert_eq!(session.state(), SessionState::AwaitingInput(ReadSyscalls::ReadInt));
}
