use wasm_build::stage::{Action, BuildFailure, Event, Stage};

#[test]
fn a_build_begins_by_writing_the_source() {
    assert_eq!(Stage::start(), Stage::Writing);
    assert_eq!(Stage::start().action(), Action::WriteSource);
}

#[test]
fn a_written_source_is_compiled_next() {
    let stage = Stage::Writing.advance(Event::SourceWritten);
    assert_eq!(stage, Stage::Compiling);
    assert_eq!(stage.action(), Action::RunCompiler);
}

#[test]
fn a_source_that_was_not_written_fails_the_build() {
    let stage = Stage::Writing.advance(Event::SourceNotWritten);
    assert_eq!(stage, Stage::Failed(BuildFailure::Synthesis));
    assert_eq!(stage.action(), Action::Finish(Err(BuildFailure::Synthesis)));
}

#[test]
fn exit_code_zero_finishes_the_build() {
    let stage = Stage::Compiling.advance(Event::CompilerExited(Some(0)));
    assert_eq!(stage, Stage::Done);
    assert_eq!(stage.action(), Action::Finish(Ok(())));
}

#[test]
fn a_nonzero_exit_code_fails_the_build() {
    for code in [1, 2, -1, 127, 255, i32::MAX, i32::MIN] {
        let stage = Stage::Compiling.advance(Event::CompilerExited(Some(code)));
        assert_eq!(stage, Stage::Failed(BuildFailure::Compile));
        assert_eq!(stage.action(), Action::Finish(Err(BuildFailure::Compile)));
    }
}

#[test]
fn a_compiler_that_gave_no_exit_code_fails_the_build() {
    let stage = Stage::Compiling.advance(Event::CompilerExited(None));
    assert_eq!(stage, Stage::Failed(BuildFailure::Compile));
}

#[test]
fn a_compiler_that_did_not_start_fails_the_build() {
    let stage = Stage::Compiling.advance(Event::CompilerNotStarted);
    assert_eq!(stage, Stage::Failed(BuildFailure::Compile));
}

#[test]
fn an_ended_build_stays_as_it_ended() {
    let events = [
        Event::SourceWritten,
        Event::SourceNotWritten,
        Event::CompilerExited(Some(0)),
        Event::CompilerExited(Some(1)),
        Event::CompilerExited(None),
        Event::CompilerNotStarted,
    ];
    let ended =
        [Stage::Done, Stage::Failed(BuildFailure::Synthesis), Stage::Failed(BuildFailure::Compile)];
    for stage in ended {
        for event in events {
            assert_eq!(stage.advance(event), stage);
        }
    }
}

#[test]
fn an_event_of_the_other_stage_changes_nothing() {
    assert_eq!(Stage::Writing.advance(Event::CompilerExited(Some(0))), Stage::Writing);
    assert_eq!(Stage::Writing.advance(Event::CompilerNotStarted), Stage::Writing);
    assert_eq!(Stage::Compiling.advance(Event::SourceWritten), Stage::Compiling);
    assert_eq!(Stage::Compiling.advance(Event::SourceNotWritten), Stage::Compiling);
}

#[test]
fn a_whole_build_that_succeeds() {
    let mut stage = Stage::start();
    stage = stage.advance(Event::SourceWritten);
    stage = stage.advance(Event::CompilerExited(Some(0)));
    assert_eq!(stage.action(), Action::Finish(Ok(())));
}

#[test]
fn a_whole_build_whose_compiler_fails() {
    let mut stage = Stage::start();
    stage = stage.advance(Event::SourceWritten);
    stage = stage.advance(Event::CompilerExited(Some(1)));
    stage = stage.advance(Event::CompilerExited(Some(0)));
    assert_eq!(stage.action(), Action::Finish(Err(BuildFailure::Compile)));
}
