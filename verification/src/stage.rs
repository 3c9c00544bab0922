//! The course of one build: the source is written, then compiled, and the
//! first failure ends it. The decisions are made here; writing the file and
//! running the compiler are the caller's part.

use vstd::prelude::*;

verus! {

/// Why a build failed.
#[derive(Clone, Copy, Debug, PartialEq, Eq)]
pub enum BuildFailure {
    /// The source file could not be created, written or closed.
    Synthesis,
    /// The compiler could not be started, or did not end with success.
    Compile,
}

/// Where a build stands.
#[derive(Clone, Copy, Debug, PartialEq, Eq)]
pub enum Stage {
    /// The source file has yet to be written.
    Writing,
    /// The source file is complete and closed; the compiler has yet to run.
    Compiling,
    /// The compiler reported success: source and module are both valid.
    Done,
    /// The build has failed; the module, if there is one, is not valid.
    Failed(BuildFailure),
}

/// What the caller reports back after its part of a stage.
#[derive(Clone, Copy, Debug, PartialEq, Eq)]
pub enum Event {
    /// Every byte of the source reached the file, and the file was closed.
    SourceWritten,
    /// Creating, writing or closing the source file failed.
    SourceNotWritten,
    /// The compiler ran and ended, with this exit code if it gave one.
    CompilerExited(Option<i32>),
    /// The compiler could not be started.
    CompilerNotStarted,
}

/// What the caller has to do next.
#[derive(Clone, Copy, Debug, PartialEq, Eq)]
pub enum Action {
    /// Write the source file in full and close it.
    WriteSource,
    /// Run the compiler and wait for it to end.
    RunCompiler,
    /// Nothing more: the build has ended with this result.
    Finish(Result<(), BuildFailure>),
}

/// The stage that follows `stage` on `event`. An event that does not belong
/// to the stage leaves it unchanged, and an ended build stays as it ended.
pub open spec fn next_stage(stage: Stage, event: Event) -> Stage {
    match (stage, event) {
        (Stage::Writing, Event::SourceWritten) => Stage::Compiling,
        (Stage::Writing, Event::SourceNotWritten) => Stage::Failed(BuildFailure::Synthesis),
        (Stage::Compiling, Event::CompilerExited(code)) => if code == Some(0i32) {
            Stage::Done
        } else {
            Stage::Failed(BuildFailure::Compile)
        },
        (Stage::Compiling, Event::CompilerNotStarted) => Stage::Failed(BuildFailure::Compile),
        _ => stage,
    }
}

/// What is to be done in `stage`.
pub open spec fn stage_action(stage: Stage) -> Action {
    match stage {
        Stage::Writing => Action::WriteSource,
        Stage::Compiling => Action::RunCompiler,
        Stage::Done => Action::Finish(Ok(())),
        Stage::Failed(failure) => Action::Finish(Err(failure)),
    }
}

/// The stage of a build that began at `stage` and saw `events` in order.
pub open spec fn stage_after(stage: Stage, events: Seq<Event>) -> Stage
    decreases events.len(),
{
    if events.len() == 0 {
        stage
    } else {
        next_stage(stage_after(stage, events.drop_last()), events.last())
    }
}

/// A compiler that ends with any code but 0, or with none, fails the build,
/// and so does one that could not be started.
pub proof fn lemma_compiler_failure_fails_build(code: Option<i32>)
    requires
        code != Some(0i32),
    ensures
        next_stage(Stage::Compiling, Event::CompilerExited(code)) == Stage::Failed(
            BuildFailure::Compile,
        ),
        next_stage(Stage::Compiling, Event::CompilerNotStarted) == Stage::Failed(
            BuildFailure::Compile,
        ),
        stage_action(Stage::Failed(BuildFailure::Compile)) == Action::Finish(
            Err(BuildFailure::Compile),
        ),
{
}

/// The first failure ends the build: whatever is reported afterwards, the
/// stage and its result stay.
pub proof fn lemma_ended_build_stays(stage: Stage, events: Seq<Event>)
    requires
        stage is Done || stage is Failed,
    ensures
        stage_after(stage, events) == stage,
    decreases events.len(),
{
    if events.len() > 0 {
        lemma_ended_build_stays(stage, events.drop_last());
    }
}

/// A build is done only when the source was written and the compiler then
/// ended with code 0: a build that begins at `Writing` and is done has seen
/// both reports, in this order.
pub proof fn lemma_done_needs_compiler_success(events: Seq<Event>)
    requires
        stage_after(Stage::Writing, events) is Done,
    ensures
        exists|i: int, j: int|
            0 <= i < j < events.len() && events[i] == Event::SourceWritten && events[j]
                == Event::CompilerExited(Some(0i32)),
    decreases events.len(),
{
    if events.len() > 0 {
        let before = events.drop_last();
        let stage = stage_after(Stage::Writing, before);
        if stage is Done {
            lemma_done_needs_compiler_success(before);
            let (i, j) = choose|i: int, j: int|
                0 <= i < j < before.len() && before[i] == Event::SourceWritten && before[j]
                    == Event::CompilerExited(Some(0i32));
            assert(events[i] == before[i] && events[j] == before[j]);
        } else {
            assert(stage is Compiling);
            assert(events.last() == Event::CompilerExited(Some(0i32)));
            lemma_compiling_needs_source(before);
            let i = choose|i: int| 0 <= i < before.len() && before[i] == Event::SourceWritten;
            assert(events[i] == before[i]);
            assert(events[events.len() - 1] == events.last());
        }
    }
}

proof fn lemma_compiling_needs_source(events: Seq<Event>)
    requires
        stage_after(Stage::Writing, events) is Compiling,
    ensures
        exists|i: int| 0 <= i < events.len() && events[i] == Event::SourceWritten,
    decreases events.len(),
{
    if events.len() > 0 {
        let before = events.drop_last();
        let stage = stage_after(Stage::Writing, before);
        if stage is Compiling {
            lemma_compiling_needs_source(before);
            let i = choose|i: int| 0 <= i < before.len() && before[i] == Event::SourceWritten;
            assert(events[i] == before[i]);
        } else {
            assert(stage is Writing);
            assert(events[events.len() - 1] == Event::SourceWritten);
        }
    }
}

impl Stage {
    /// The stage in which every build begins.
    pub fn start() -> (stage: Stage)
        ensures
            stage == Stage::Writing,
    {
        Stage::Writing
    }

    /// The stage that follows this one on `event`.
    pub fn advance(self, event: Event) -> (next: Stage)
        ensures
            next == next_stage(self, event),
    {
        match self {
            Stage::Writing => match event {
                Event::SourceWritten => Stage::Compiling,
                Event::SourceNotWritten => Stage::Failed(BuildFailure::Synthesis),
                _ => self,
            },
            Stage::Compiling => match event {
                Event::CompilerExited(code) => match code {
                    Some(0) => Stage::Done,
                    _ => Stage::Failed(BuildFailure::Compile),
                },
                Event::CompilerNotStarted => Stage::Failed(BuildFailure::Compile),
                _ => self,
            },
            _ => self,
        }
    }

    /// What the caller has to do in this stage.
    pub fn action(&self) -> (action: Action)
        ensures
            action == stage_action(*self),
    {
        match self {
            Stage::Writing => Action::WriteSource,
            Stage::Compiling => Action::RunCompiler,
            Stage::Done => Action::Finish(Ok(())),
            Stage::Failed(failure) => Action::Finish(Err(*failure)),
        }
    }
}

} // verus!
