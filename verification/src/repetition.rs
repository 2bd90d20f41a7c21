//! Running an acquisition again. The files of a batch are fetched side by
//! side, so they finish in an order that differs from run to run. When the
//! forge answers as before, the result does not: the files counted and
//! their bytes depend on what came of each fetch, not on the order, and so
//! do the files left in the output directory when no two of them share a
//! place.

use crate::archive::clamp_u32;
use crate::batch::{lemma_batch_result, saved_bytes, saved_files, skipped_a_file};
use crate::extraction::{clamp_u64, Directory};
use crate::laws::{run_state, Input};
use crate::layout::final_output_dir;
use crate::model::{AcquisitionResult, ContentItem, GitDownloadOptions, RepositoryRef};
use crate::transition::{
    accepted_count, start_view, step_view, ActionView, EngineView, EventView, JobView, Phase,
};
use crate::tree::{
    answered, directories_below, files_below, lemma_directory_is_fetched_whole,
    lemma_listing_finds_the_tree, within_depth,
};
use vstd::prelude::*;

verus! {

/// What came of the fetch of `job`, where `outcomes` holds, job by job, the
/// size of the file saved, or nothing for a file that was given up.
pub open spec fn outcome_of(outcomes: Seq<Option<u64>>, job: int) -> Option<u64> {
    if 0 <= job < outcomes.len() {
        outcomes[job]
    } else {
        None
    }
}

/// Whether `order` has `count` places and names each of the first `count` jobs.
pub open spec fn covers(order: Seq<int>, count: nat) -> bool {
    &&& order.len() == count
    &&& forall|job: int| 0 <= job < count ==> #[trigger] order.contains(job)
}

/// Whether `order` is an order in which `count` jobs can finish: it names
/// every job, each once, and nothing else.
pub open spec fn finishes_each_once(order: Seq<int>, count: nat) -> bool {
    &&& covers(order, count)
    &&& forall|p: int| 0 <= p < order.len() ==> 0 <= #[trigger] order[p] < count
}

/// Whether the cancellation flag was never set.
pub open spec fn never_cancelled(inputs: Seq<Input>) -> bool {
    forall|i: int| 0 <= i < inputs.len() ==> !(#[trigger] inputs[i]).cancelled
}

/// The sizes, added up.
pub open spec fn added_up(sizes: Seq<u64>) -> nat
    decreases sizes.len(),
{
    if sizes.len() == 0 {
        0
    } else {
        added_up(sizes.drop_last()) + sizes.last() as nat
    }
}

/// The sizes of the files reported saved, in the order of the reports.
pub open spec fn saved_sizes(inputs: Seq<Input>) -> Seq<u64>
    decreases inputs.len(),
{
    if inputs.len() == 0 {
        Seq::empty()
    } else {
        let earlier = saved_sizes(inputs.drop_last());
        match inputs.last().event {
            EventView::FileSaved { size } => earlier.push(size),
            _ => earlier,
        }
    }
}

/// The sizes of the files saved when the jobs finish in `order`.
pub open spec fn sizes_in(order: Seq<int>, outcomes: Seq<Option<u64>>) -> Seq<u64>
    decreases order.len(),
{
    if order.len() == 0 {
        Seq::empty()
    } else {
        let earlier = sizes_in(order.drop_last(), outcomes);
        match outcome_of(outcomes, order.last()) {
            Some(size) => earlier.push(size),
            None => earlier,
        }
    }
}

/// How many of the first `upto` jobs saved their file.
pub open spec fn saved_among(outcomes: Seq<Option<u64>>, upto: int) -> nat
    decreases upto,
{
    if upto <= 0 {
        0
    } else {
        saved_among(outcomes, upto - 1) + match outcome_of(outcomes, upto - 1) {
            Some(_) => 1nat,
            None => 0nat,
        }
    }
}

/// The sizes of the files that the first `upto` jobs saved, added up.
pub open spec fn bytes_among(outcomes: Seq<Option<u64>>, upto: int) -> nat
    decreases upto,
{
    if upto <= 0 {
        0
    } else {
        bytes_among(outcomes, upto - 1) + match outcome_of(outcomes, upto - 1) {
            Some(size) => size as nat,
            None => 0nat,
        }
    }
}

/// The result of a batch in which the fetches came to `outcomes`.
pub open spec fn result_of(outcomes: Seq<Option<u64>>, output_dir: Seq<char>) -> AcquisitionResult {
    AcquisitionResult {
        success: true,
        files_count: clamp_u32(saved_among(outcomes, outcomes.len() as int)),
        total_size: clamp_u64(bytes_among(outcomes, outcomes.len() as int)),
        output_path: output_dir,
    }
}

/// The output directory after the jobs finished in `order`: at the place of
/// each file saved stands the content that its job fetched, the later of two
/// jobs that share a place replacing the earlier.
pub open spec fn fetched(jobs: Seq<JobView>, order: Seq<int>, outcomes: Seq<Option<u64>>) -> Directory
    decreases order.len(),
{
    if order.len() == 0 {
        Map::empty()
    } else {
        let earlier = fetched(jobs, order.drop_last(), outcomes);
        let job = order.last();
        if 0 <= job < jobs.len() && outcome_of(outcomes, job) is Some {
            earlier.insert(jobs[job].destination, job)
        } else {
            earlier
        }
    }
}

/// Whether no two jobs that saved their file share a place.
pub open spec fn places_differ(jobs: Seq<JobView>, outcomes: Seq<Option<u64>>) -> bool {
    forall|i: int, j: int|
        0 <= i < jobs.len() && 0 <= j < jobs.len() && i != j && outcome_of(outcomes, i) is Some
            && outcome_of(outcomes, j) is Some ==> (#[trigger] jobs[i]).destination
            != (#[trigger] jobs[j]).destination
}

proof fn lemma_added_up_push(sizes: Seq<u64>, size: u64)
    ensures
        added_up(sizes.push(size)) == added_up(sizes) + size as nat,
{
    assert(sizes.push(size).drop_last() =~= sizes);
}

proof fn lemma_without(order: Seq<int>, outcomes: Seq<Option<u64>>, p: int)
    requires
        0 <= p < order.len(),
    ensures
        sizes_in(order, outcomes).len() == sizes_in(order.remove(p), outcomes).len()
            + match outcome_of(outcomes, order[p]) {
            Some(_) => 1nat,
            None => 0nat,
        },
        added_up(sizes_in(order, outcomes)) == added_up(sizes_in(order.remove(p), outcomes))
            + match outcome_of(outcomes, order[p]) {
            Some(size) => size as nat,
            None => 0nat,
        },
    decreases order.len(),
{
    let earlier = sizes_in(order.drop_last(), outcomes);
    if let Some(size) = outcome_of(outcomes, order.last()) {
        lemma_added_up_push(earlier, size);
    }
    if p == order.len() - 1 {
        assert(order.remove(p) =~= order.drop_last());
    } else {
        let rest = order.remove(p);
        assert(rest.drop_last() =~= order.drop_last().remove(p));
        assert(rest.last() == order.last());
        lemma_without(order.drop_last(), outcomes, p);
        if let Some(size) = outcome_of(outcomes, order.last()) {
            lemma_added_up_push(sizes_in(rest.drop_last(), outcomes), size);
        }
    }
}

/// The order does not matter to the sum. In whatever order the jobs
/// finish, the files saved are as many as the jobs that saved one, and
/// their sizes add up to the same.
pub proof fn lemma_saved_in_any_order(order: Seq<int>, outcomes: Seq<Option<u64>>, count: nat)
    requires
        covers(order, count),
    ensures
        sizes_in(order, outcomes).len() == saved_among(outcomes, count as int),
        added_up(sizes_in(order, outcomes)) == bytes_among(outcomes, count as int),
    decreases count,
{
    if count > 0 {
        let job = count - 1;
        assert(order.contains(job));
        let p = choose|p: int| 0 <= p < order.len() && order[p] == job;
        let rest = order.remove(p);
        assert forall|other: int| 0 <= other < count - 1 implies #[trigger] rest.contains(
            other,
        ) by {
            assert(order.contains(other));
            let q = choose|q: int| 0 <= q < order.len() && order[q] == other;
            if q < p {
                assert(rest[q] == other);
            } else {
                assert(rest[q - 1] == other);
            }
        }
        lemma_saved_in_any_order(rest, outcomes, (count - 1) as nat);
        lemma_without(order, outcomes, p);
    }
}

/// The engine's counts are those of the saves reported.
pub proof fn lemma_saves_counted(inputs: Seq<Input>)
    ensures
        saved_files(inputs) == saved_sizes(inputs).len(),
        saved_bytes(inputs) == added_up(saved_sizes(inputs)),
        never_cancelled(inputs) ==> !skipped_a_file(inputs),
    decreases inputs.len(),
{
    if inputs.len() > 0 {
        let earlier = inputs.drop_last();
        lemma_saves_counted(earlier);
        if let EventView::FileSaved { size } = inputs.last().event {
            lemma_added_up_push(saved_sizes(earlier), size);
        }
        if never_cancelled(inputs) {
            assert(!inputs[inputs.len() - 1].cancelled);
            assert forall|i: int| 0 <= i < earlier.len() implies !(#[trigger] earlier[i]).cancelled by {
                assert(earlier[i] == inputs[i]);
            }
        }
    }
}

/// The result of a batch depends on what came of each fetch, and not on the
/// order in which the files finished. Let the fetches come to `outcomes`,
/// and let the files be reported saved in some order in which every job
/// finishes once. When the batch is declared over and the cancellation flag
/// was never set, the acquisition succeeds with the number of files saved,
/// their bytes, and the output directory.
pub proof fn lemma_batch_in_any_order(
    s: EngineView,
    inputs: Seq<Input>,
    order: Seq<int>,
    outcomes: Seq<Option<u64>>,
)
    requires
        s.phase == Phase::Fetching,
        s.processed == 0,
        s.bytes == 0,
        !s.cancel_seen,
        run_state(s, inputs).phase == Phase::Fetching,
        never_cancelled(inputs),
        finishes_each_once(order, outcomes.len()),
        saved_sizes(inputs) == sizes_in(order, outcomes),
    ensures
        step_view(run_state(s, inputs), EventView::FilesFinished, false).1.action
            == ActionView::Finish(Ok(result_of(outcomes, s.output_dir))),
{
    lemma_saves_counted(inputs);
    lemma_saved_in_any_order(order, outcomes, outcomes.len());
    lemma_batch_result(s, inputs, false);
}

/// Two runs of a batch come to the same result. When the fetches come to
/// the same in both runs, the results are equal, whatever the order in
/// which the files finished in each.
pub proof fn lemma_repeated_batch_agrees(
    s: EngineView,
    outcomes: Seq<Option<u64>>,
    first: Seq<Input>,
    first_order: Seq<int>,
    second: Seq<Input>,
    second_order: Seq<int>,
)
    requires
        s.phase == Phase::Fetching,
        s.processed == 0,
        s.bytes == 0,
        !s.cancel_seen,
        run_state(s, first).phase == Phase::Fetching,
        run_state(s, second).phase == Phase::Fetching,
        never_cancelled(first),
        never_cancelled(second),
        finishes_each_once(first_order, outcomes.len()),
        finishes_each_once(second_order, outcomes.len()),
        saved_sizes(first) == sizes_in(first_order, outcomes),
        saved_sizes(second) == sizes_in(second_order, outcomes),
    ensures
        step_view(run_state(s, first), EventView::FilesFinished, false).1.action == step_view(
            run_state(s, second),
            EventView::FilesFinished,
            false,
        ).1.action,
{
    lemma_batch_in_any_order(s, first, first_order, outcomes);
    lemma_batch_in_any_order(s, second, second_order, outcomes);
}

/// What stands in the directory after the jobs finished in `order`. At
/// every path of the directory stands the content of a job of the order
/// that saved its file there, and every such job has its place in the
/// directory.
pub proof fn lemma_fetched_holds_the_saved(
    jobs: Seq<JobView>,
    order: Seq<int>,
    outcomes: Seq<Option<u64>>,
)
    ensures
        forall|path: Seq<char>| #[trigger]
            fetched(jobs, order, outcomes).dom().contains(path) ==> {
                let job = fetched(jobs, order, outcomes)[path];
                &&& order.contains(job)
                &&& 0 <= job < jobs.len()
                &&& outcome_of(outcomes, job) is Some
                &&& jobs[job].destination == path
            },
        forall|p: int|
            0 <= p < order.len() && 0 <= #[trigger] order[p] < jobs.len() && outcome_of(
                outcomes,
                order[p],
            ) is Some ==> fetched(jobs, order, outcomes).dom().contains(
                jobs[order[p]].destination,
            ),
    decreases order.len(),
{
    if order.len() > 0 {
        let earlier = order.drop_last();
        lemma_fetched_holds_the_saved(jobs, earlier, outcomes);
        let now = fetched(jobs, order, outcomes);
        assert forall|path: Seq<char>| #[trigger] now.dom().contains(path) implies {
            let job = now[path];
            &&& order.contains(job)
            &&& 0 <= job < jobs.len()
            &&& outcome_of(outcomes, job) is Some
            &&& jobs[job].destination == path
        } by {
            let job = now[path];
            if job == order.last() {
                assert(order[order.len() - 1] == job);
            } else {
                assert(fetched(jobs, earlier, outcomes).dom().contains(path));
                assert(earlier.contains(job));
                let q = choose|q: int| 0 <= q < earlier.len() && earlier[q] == job;
                assert(order[q] == job);
            }
        }
        assert forall|p: int|
            0 <= p < order.len() && 0 <= #[trigger] order[p] < jobs.len() && outcome_of(
                outcomes,
                order[p],
            ) is Some implies now.dom().contains(jobs[order[p]].destination) by {
            if p < order.len() - 1 {
                assert(earlier[p] == order[p]);
            }
        }
    }
}

/// The files left by a batch do not depend on the order. In whatever order
/// the jobs finish, the same paths hold a file afterwards; and where no two
/// jobs that saved their file share a place, each path holds the same
/// content.
pub proof fn lemma_fetched_in_any_order(
    jobs: Seq<JobView>,
    outcomes: Seq<Option<u64>>,
    first_order: Seq<int>,
    second_order: Seq<int>,
)
    requires
        outcomes.len() == jobs.len(),
        finishes_each_once(first_order, jobs.len()),
        finishes_each_once(second_order, jobs.len()),
    ensures
        fetched(jobs, first_order, outcomes).dom() == fetched(jobs, second_order, outcomes).dom(),
        places_differ(jobs, outcomes) ==> fetched(jobs, first_order, outcomes) == fetched(
            jobs,
            second_order,
            outcomes,
        ),
{
    let a = fetched(jobs, first_order, outcomes);
    let b = fetched(jobs, second_order, outcomes);
    lemma_fetched_holds_the_saved(jobs, first_order, outcomes);
    lemma_fetched_holds_the_saved(jobs, second_order, outcomes);
    assert forall|path: Seq<char>| a.dom().contains(path) <==> b.dom().contains(path) by {
        if a.dom().contains(path) {
            let job = a[path];
            assert(second_order.contains(job));
            let q = choose|q: int| 0 <= q < second_order.len() && second_order[q] == job;
            assert(b.dom().contains(jobs[second_order[q]].destination));
        }
        if b.dom().contains(path) {
            let job = b[path];
            assert(first_order.contains(job));
            let q = choose|q: int| 0 <= q < first_order.len() && first_order[q] == job;
            assert(a.dom().contains(jobs[first_order[q]].destination));
        }
    }
    assert(a.dom() =~= b.dom());
    if places_differ(jobs, outcomes) {
        assert forall|path: Seq<char>| a.dom().contains(path) implies a[path] == b[path] by {
            let i = a[path];
            let j = b[path];
            assert(b.dom().contains(path));
            if i != j {
                assert(jobs[i].destination != jobs[j].destination);
            }
        }
        assert(a =~= b);
    }
}

/// The state in which the batch begins, after the listings of the tree were
/// answered and the output directory was made.
pub open spec fn batch_begun(
    remote: spec_fn(Seq<char>) -> Seq<ContentItem>,
    info: RepositoryRef,
    output_path: Seq<char>,
    options: GitDownloadOptions,
    depth: nat,
) -> EngineView {
    let start = start_view(info, output_path, options).0;
    let listed = answered(
        remote,
        start,
        1 + directories_below(remote, remote(info.path), depth),
    );
    step_view(listed, EventView::OutputDirReady, false).0
}

/// Two acquisitions of a directory come to the same result. Let the forge
/// answer every listing with success and as the tree `remote` says, let
/// there be an accepted file in the tree, and let the fetches come to
/// `outcomes`, one for each accepted file. Then two runs whose
/// cancellation flag is never set end with the same result, whatever the
/// order in which the files finish in each: the number of files saved,
/// their bytes, and the output directory.
pub proof fn lemma_repeated_listing_agrees(
    remote: spec_fn(Seq<char>) -> Seq<ContentItem>,
    info: RepositoryRef,
    output_path: Seq<char>,
    options: GitDownloadOptions,
    depth: nat,
    outcomes: Seq<Option<u64>>,
    first: Seq<Input>,
    first_order: Seq<int>,
    second: Seq<Input>,
    second_order: Seq<int>,
)
    requires
        info.path.len() > 0,
        within_depth(remote, remote(info.path), depth),
        accepted_count(files_below(remote, remote(info.path), depth), info.path) > 0,
        outcomes.len() == accepted_count(
            files_below(remote, remote(info.path), depth),
            info.path,
        ),
        never_cancelled(first),
        never_cancelled(second),
        finishes_each_once(first_order, outcomes.len()),
        finishes_each_once(second_order, outcomes.len()),
        saved_sizes(first) == sizes_in(first_order, outcomes),
        saved_sizes(second) == sizes_in(second_order, outcomes),
        run_state(batch_begun(remote, info, output_path, options, depth), first).phase
            == Phase::Fetching,
        run_state(batch_begun(remote, info, output_path, options, depth), second).phase
            == Phase::Fetching,
    ensures
        ({
            let s = batch_begun(remote, info, output_path, options, depth);
            let done = ActionView::Finish(
                Ok(result_of(outcomes, final_output_dir(output_path, info, options))),
            );
            &&& step_view(run_state(s, first), EventView::FilesFinished, false).1.action == done
            &&& step_view(run_state(s, second), EventView::FilesFinished, false).1.action == done
        }),
{
    let start = start_view(info, output_path, options).0;
    let tree = remote(info.path);
    let s = batch_begun(remote, info, output_path, options, depth);
    assert(tree + start.pending =~= tree);
    lemma_listing_finds_the_tree(remote, start, depth);
    assert(start.files + files_below(remote, tree, depth) =~= files_below(remote, tree, depth));
    lemma_directory_is_fetched_whole(remote, info, output_path, options, depth);
    lemma_batch_in_any_order(s, first, first_order, outcomes);
    lemma_batch_in_any_order(s, second, second_order, outcomes);
}

} // verus!
