//! What cancellation does. The flag is looked at before each file of a
//! batch is requested, when each chunk of the archive arrives, and before
//! each entry of the archive is extracted. While it is set the engine never
//! asks for anything to be written.

use crate::laws::{run_outputs, run_state, writes, Input};
use crate::model::{ErrorView, GitDownloadOptions, RepositoryRef};
use crate::transition::{start_view, step_view, ActionView, EngineView, EventView, Phase};
use vstd::prelude::*;

verus! {

/// Whether the flag was set at every event of the run.
pub open spec fn all_cancelled(inputs: Seq<Input>) -> bool {
    forall|k: int| 0 <= k < inputs.len() ==> (#[trigger] inputs[k]).cancelled
}

/// Whether the engine is on the archive strategy and has not begun to
/// extract, or has failed or was cancelled.
pub open spec fn before_extraction(s: EngineView) -> bool {
    ||| s.phase == Phase::RequestingArchive
    ||| s.phase == Phase::Receiving
    ||| s.phase == Phase::WritingChunk
    ||| s.phase == Phase::OpeningArchive
    ||| s.phase == Phase::PreparingExtract && s.entries.len() > 0
    ||| s.phase == Phase::Failed
    ||| s.phase == Phase::Cancelled
}

/// Whether the engine has not yet asked for a file to be written, or has
/// ended without a file of the batch having been announced.
pub open spec fn nothing_announced(s: EngineView) -> bool {
    ||| before_extraction(s)
    ||| s.phase == Phase::Listing
    ||| s.phase == Phase::PreparingFetch
    ||| s.phase == Phase::Fetching
    ||| s.phase == Phase::Complete && !s.cancel_seen
}

/// Whether an action ends the run with a result.
pub open spec fn succeeds(action: ActionView) -> bool {
    action matches ActionView::Finish(outcome) && outcome is Ok
}

/// With the flag set, a step never asks for a file, a chunk or an entry to
/// be written. At each point where the flag is looked at, the step refuses:
/// the announced file is skipped and the batch is marked, and an arriving
/// chunk or a pending entry ends the run as cancelled.
#[verifier::rlimit(40)]
pub proof fn lemma_cancelled_step(s: EngineView, event: EventView)
    ensures
        ({
            let (t, out) = step_view(s, event, true);
            &&& !writes(out.action)
            &&& s.phase == Phase::Fetching && event is FileStarting ==> out.action is Skip
                && t.cancel_seen && t.phase == Phase::Fetching
            &&& s.phase == Phase::Receiving && event is ChunkArrived ==> out.action
                == ActionView::Finish(Err(ErrorView::Cancelled))
            &&& s.phase == Phase::Extracting && event is EntryExtracted && s.cursor + 1
                < s.entries.len() ==> out.action == ActionView::Finish(Err(ErrorView::Cancelled))
            &&& s.phase == Phase::PreparingExtract && event is OutputDirReady && s.entries.len() > 0
                ==> out.action == ActionView::Finish(Err(ErrorView::Cancelled)) || out.action
                == ActionView::Finish(Err(ErrorView::FolderNotFound))
            &&& before_extraction(s) ==> before_extraction(t) && !succeeds(out.action)
            &&& nothing_announced(s) ==> nothing_announced(t)
        }),
{
}

/// A batch in which a file was skipped ends as cancelled: the mark stays
/// while files are fetched, and the end of the batch cancels the run.
pub proof fn lemma_marked_batch_step(s: EngineView, event: EventView, cancelled: bool)
    requires
        s.phase == Phase::Fetching,
        s.cancel_seen,
    ensures
        ({
            let (t, out) = step_view(s, event, cancelled);
            &&& t.phase == Phase::Fetching && t.cancel_seen || t.phase == Phase::Cancelled
            &&& event is FilesFinished ==> out.action == ActionView::Finish(
                Err(ErrorView::Cancelled),
            )
            &&& out.action is Finish ==> out.action == ActionView::Finish(
                Err(ErrorView::Cancelled),
            )
        }),
{
}

/// While the flag stays set, no step of a run asks for anything to be written.
pub proof fn lemma_cancelled_run_writes_nothing(s: EngineView, inputs: Seq<Input>)
    requires
        all_cancelled(inputs),
    ensures
        forall|k: int|
            0 <= k < run_outputs(s, inputs).len() ==> !writes(
                (#[trigger] run_outputs(s, inputs)[k]).action,
            ),
    decreases inputs.len(),
{
    if inputs.len() > 0 {
        let earlier = inputs.drop_last();
        assert forall|k: int| 0 <= k < earlier.len() implies (#[trigger] earlier[k]).cancelled by {
            assert(earlier[k] == inputs[k]);
        }
        lemma_cancelled_run_writes_nothing(s, earlier);
        assert(inputs.last() == inputs[inputs.len() - 1]);
        lemma_cancelled_step(run_state(s, earlier), inputs.last().event);
        let outs = run_outputs(s, inputs);
        assert forall|k: int| 0 <= k < outs.len() implies !writes((#[trigger] outs[k]).action) by {
            if k < outs.len() - 1 {
                assert(outs[k] == run_outputs(s, earlier)[k]);
            }
        }
    }
}

/// While the flag stays set, a run on the archive strategy that has not
/// begun to extract never succeeds.
pub proof fn lemma_cancelled_archive_never_succeeds(s: EngineView, inputs: Seq<Input>)
    requires
        all_cancelled(inputs),
        before_extraction(s),
    ensures
        before_extraction(run_state(s, inputs)),
        run_state(s, inputs).phase != Phase::Complete,
        forall|k: int|
            0 <= k < run_outputs(s, inputs).len() ==> !succeeds(
                (#[trigger] run_outputs(s, inputs)[k]).action,
            ),
    decreases inputs.len(),
{
    if inputs.len() > 0 {
        let earlier = inputs.drop_last();
        assert forall|k: int| 0 <= k < earlier.len() implies (#[trigger] earlier[k]).cancelled by {
            assert(earlier[k] == inputs[k]);
        }
        lemma_cancelled_archive_never_succeeds(s, earlier);
        assert(inputs.last() == inputs[inputs.len() - 1]);
        lemma_cancelled_step(run_state(s, earlier), inputs.last().event);
        let outs = run_outputs(s, inputs);
        assert forall|k: int| 0 <= k < outs.len() implies !succeeds((#[trigger] outs[k]).action) by {
            if k < outs.len() - 1 {
                assert(outs[k] == run_outputs(s, earlier)[k]);
            }
        }
    }
}

/// While the flag stays set, a run that succeeds is one in which no file of
/// the batch was ever announced.
pub proof fn lemma_cancelled_run_announces_nothing(s: EngineView, inputs: Seq<Input>)
    requires
        all_cancelled(inputs),
        nothing_announced(s),
    ensures
        nothing_announced(run_state(s, inputs)),
    decreases inputs.len(),
{
    if inputs.len() > 0 {
        let earlier = inputs.drop_last();
        assert forall|k: int| 0 <= k < earlier.len() implies (#[trigger] earlier[k]).cancelled by {
            assert(earlier[k] == inputs[k]);
        }
        lemma_cancelled_run_announces_nothing(s, earlier);
        assert(inputs.last() == inputs[inputs.len() - 1]);
        lemma_cancelled_step(run_state(s, earlier), inputs.last().event);
    }
}

/// A batch in which a file was skipped never succeeds: whatever happens
/// later, the run goes on fetching with the mark, or is cancelled, and the
/// only result it can end with is the cancellation.
pub proof fn lemma_marked_batch_ends_cancelled(s: EngineView, inputs: Seq<Input>)
    requires
        s.phase == Phase::Fetching,
        s.cancel_seen,
    ensures
        ({
            let t = run_state(s, inputs);
            t.phase == Phase::Fetching && t.cancel_seen || t.phase == Phase::Cancelled
        }),
        forall|k: int|
            0 <= k < run_outputs(s, inputs).len() && (#[trigger] run_outputs(
                s,
                inputs,
            )[k]).action is Finish ==> run_outputs(s, inputs)[k].action == ActionView::Finish(
                Err(ErrorView::Cancelled),
            ),
    decreases inputs.len(),
{
    if inputs.len() > 0 {
        let earlier = inputs.drop_last();
        let m = run_state(s, earlier);
        lemma_marked_batch_ends_cancelled(s, earlier);
        if m.phase == Phase::Fetching {
            lemma_marked_batch_step(m, inputs.last().event, inputs.last().cancelled);
        }
        let outs = run_outputs(s, inputs);
        assert forall|k: int| 0 <= k < outs.len() && (#[trigger] outs[k]).action is Finish implies
            outs[k].action == ActionView::Finish(Err(ErrorView::Cancelled)) by {
            if k < outs.len() - 1 {
                assert(outs[k] == run_outputs(s, earlier)[k]);
            }
        }
    }
}

/// Cancelled from the start. When the flag is set at every event of an
/// acquisition, nothing is ever asked to be written; the acquisition of a
/// whole repository never succeeds; and the acquisition of a directory can
/// only succeed if no file of its batch was ever announced.
pub proof fn lemma_cancelled_acquisition(
    info: RepositoryRef,
    output_path: Seq<char>,
    options: GitDownloadOptions,
    inputs: Seq<Input>,
)
    requires
        all_cancelled(inputs),
    ensures
        ({
            let (s, out) = start_view(info, output_path, options);
            let outs = run_outputs(s, inputs);
            let end = run_state(s, inputs);
            &&& !writes(out.action)
            &&& forall|k: int| 0 <= k < outs.len() ==> !writes((#[trigger] outs[k]).action)
            &&& info.path.len() == 0 ==> end.phase != Phase::Complete
            &&& end.phase == Phase::Complete ==> !end.cancel_seen
        }),
{
    let (s, out) = start_view(info, output_path, options);
    lemma_cancelled_run_writes_nothing(s, inputs);
    lemma_cancelled_run_announces_nothing(s, inputs);
    if info.path.len() == 0 {
        lemma_cancelled_archive_never_succeeds(s, inputs);
    }
}

} // verus!
