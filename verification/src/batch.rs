//! What a batch of fetches comes to: the files that were saved and their
//! bytes, or the cancellation when a file was skipped. Files that failed are
//! not counted, and do not fail the batch.

use crate::archive::clamp_u32;
use crate::extraction::clamp_u64;
use crate::laws::{run_state, Input};
use crate::model::{AcquisitionResult, ErrorView};
use crate::transition::{step_view, ActionView, EngineView, EventView, Phase};
use vstd::prelude::*;

verus! {

/// How many of the events report a file saved.
pub open spec fn saved_files(inputs: Seq<Input>) -> nat
    decreases inputs.len(),
{
    if inputs.len() == 0 {
        0
    } else {
        saved_files(inputs.drop_last()) + if inputs.last().event is FileSaved {
            1nat
        } else {
            0nat
        }
    }
}

/// The sizes of the files reported saved, added up.
pub open spec fn saved_bytes(inputs: Seq<Input>) -> nat
    decreases inputs.len(),
{
    if inputs.len() == 0 {
        0
    } else {
        saved_bytes(inputs.drop_last()) + match inputs.last().event {
            EventView::FileSaved { size } => size as nat,
            _ => 0nat,
        }
    }
}

/// Whether a file was announced while the cancellation flag was set.
pub open spec fn skipped_a_file(inputs: Seq<Input>) -> bool
    decreases inputs.len(),
{
    if inputs.len() == 0 {
        false
    } else {
        skipped_a_file(inputs.drop_last()) || (inputs.last().event is FileStarting
            && inputs.last().cancelled)
    }
}

/// What one step does to a batch: a file saved is counted, with its bytes; a
/// file announced while the flag is set marks the batch; the end of the
/// batch ends it; and nothing else changes it.
#[verifier::rlimit(40)]
pub proof fn lemma_batch_step(m: EngineView, event: EventView, cancelled: bool)
    requires
        m.phase == Phase::Fetching,
    ensures
        ({
            let t = step_view(m, event, cancelled).0;
            &&& t.phase == Phase::Fetching || t.phase == Phase::Complete || t.phase
                == Phase::Cancelled
            &&& t.phase == Phase::Fetching ==> {
                &&& t.processed == clamp_u32(
                    m.processed as nat + if event is FileSaved {
                        1nat
                    } else {
                        0nat
                    },
                )
                &&& t.bytes == clamp_u64(
                    m.bytes as nat + match event {
                        EventView::FileSaved { size } => size as nat,
                        _ => 0nat,
                    },
                )
                &&& t.cancel_seen == (m.cancel_seen || (event is FileStarting && cancelled))
                &&& t.total == m.total
                &&& t.output_dir == m.output_dir
            }
        }),
{
}

/// While a batch goes on, the engine has counted the files reported saved
/// and their bytes, and has marked the batch if a file was skipped. A batch
/// ends in success or cancellation, and is never taken up again.
pub proof fn lemma_batch_counts(s: EngineView, inputs: Seq<Input>)
    requires
        s.phase == Phase::Fetching,
    ensures
        ({
            let t = run_state(s, inputs);
            &&& t.phase == Phase::Fetching || t.phase == Phase::Complete || t.phase
                == Phase::Cancelled
            &&& t.phase == Phase::Fetching ==> {
                &&& t.processed == clamp_u32(s.processed as nat + saved_files(inputs))
                &&& t.bytes == clamp_u64(s.bytes as nat + saved_bytes(inputs))
                &&& t.cancel_seen == (s.cancel_seen || skipped_a_file(inputs))
                &&& t.total == s.total
                &&& t.output_dir == s.output_dir
            }
        }),
    decreases inputs.len(),
{
    if inputs.len() > 0 {
        let earlier = inputs.drop_last();
        let m = run_state(s, earlier);
        lemma_batch_counts(s, earlier);
        if m.phase == Phase::Fetching {
            lemma_batch_step(m, inputs.last().event, inputs.last().cancelled);
        } else {
            lemma_over_stays(m, inputs.last().event, inputs.last().cancelled);
        }
    }
}

proof fn lemma_over_stays(m: EngineView, event: EventView, cancelled: bool)
    requires
        m.phase == Phase::Complete || m.phase == Phase::Cancelled,
    ensures
        step_view(m, event, cancelled).0 == m,
{
}

/// The result of a batch. When the batch is declared over, it fails as
/// cancelled if a file was announced while the flag was set; otherwise it
/// succeeds, and reports the number of files saved, their bytes, and the
/// output directory. The numbers stop at the largest that fits.
pub proof fn lemma_batch_result(s: EngineView, inputs: Seq<Input>, cancelled: bool)
    requires
        s.phase == Phase::Fetching,
        s.processed == 0,
        s.bytes == 0,
        !s.cancel_seen,
        run_state(s, inputs).phase == Phase::Fetching,
    ensures
        ({
            let (t, out) = step_view(run_state(s, inputs), EventView::FilesFinished, cancelled);
            if skipped_a_file(inputs) {
                &&& out.action == ActionView::Finish(Err(ErrorView::Cancelled))
                &&& t.phase == Phase::Cancelled
            } else {
                &&& out.action == ActionView::Finish(
                    Ok(
                        AcquisitionResult {
                            success: true,
                            files_count: clamp_u32(saved_files(inputs)),
                            total_size: clamp_u64(saved_bytes(inputs)),
                            output_path: s.output_dir,
                        },
                    ),
                )
                &&& t.phase == Phase::Complete
            }
        }),
{
    lemma_batch_counts(s, inputs);
}

} // verus!
