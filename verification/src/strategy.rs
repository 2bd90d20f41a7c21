//! Which strategy a run takes: a whole repository goes straight to the
//! archive; a directory is listed first, a refused listing ends the run, and
//! any other failed listing is answered by the archive, once.

use crate::archive::archive_url;
use crate::laws::{is_over, run_outputs, run_state, Input};
use crate::lister::{listing_failure, quota_exhausted};
use crate::model::{Endpoint, ErrorView, GitDownloadOptions, RepositoryRef};
use crate::transition::{start_view, step_view, ActionView, EngineView, EventView, OutputView, Phase};
use vstd::prelude::*;

verus! {

/// Whether a step asks for a directory listing.
pub open spec fn lists(out: OutputView) -> bool {
    out.action is ListDirectory
}

/// Whether a step asks for the archive.
pub open spec fn requests_archive(out: OutputView) -> bool {
    out.action is DownloadArchive
}

/// How many of the steps ask for the archive.
pub open spec fn archive_requests(outs: Seq<OutputView>) -> nat
    decreases outs.len(),
{
    if outs.len() == 0 {
        0
    } else {
        archive_requests(outs.drop_last()) + if requests_archive(outs.last()) {
            1nat
        } else {
            0nat
        }
    }
}

/// Whether `event` reports a failed listing that does not end the run: an
/// answer whose status is a failure other than 403, or a request or body
/// that failed.
pub open spec fn listing_failed_over(s: EngineView, event: EventView) -> bool {
    match event {
        EventView::ListingAnswered { status, rate_limit_remaining, items } => {
            listing_failure(status, rate_limit_remaining, s.listed_path) is Some && status != 403
        },
        EventView::IoFailed { kind, detail } => true,
        _ => false,
    }
}

/// Only a step from the listing asks for a listing or for the archive; a
/// step that asks for the archive leaves the listing for good and asks for
/// the archive of the repository's branch.
#[verifier::rlimit(40)]
pub proof fn lemma_step_strategy(s: EngineView, event: EventView, cancelled: bool)
    ensures
        ({
            let (t, out) = step_view(s, event, cancelled);
            &&& t.info == s.info
            &&& s.phase != Phase::Listing ==> t.phase != Phase::Listing && !lists(out)
                && !requests_archive(out)
            &&& lists(out) ==> t.phase == Phase::Listing
            &&& requests_archive(out) ==> t.phase == Phase::RequestingArchive && out.action
                == (ActionView::DownloadArchive { url: archive_url(s.info) })
        }),
{
}

/// Off the listing, a run never lists and never asks for the archive.
pub proof fn lemma_no_listing_after(s: EngineView, inputs: Seq<Input>)
    requires
        s.phase != Phase::Listing,
    ensures
        run_state(s, inputs).phase != Phase::Listing,
        archive_requests(run_outputs(s, inputs)) == 0,
        forall|k: int|
            0 <= k < run_outputs(s, inputs).len() ==> !lists(#[trigger] run_outputs(s, inputs)[k])
                && !requests_archive(run_outputs(s, inputs)[k]),
    decreases inputs.len(),
{
    if inputs.len() > 0 {
        let earlier = inputs.drop_last();
        lemma_no_listing_after(s, earlier);
        lemma_step_strategy(run_state(s, earlier), inputs.last().event, inputs.last().cancelled);
        let outs = run_outputs(s, inputs);
        assert(outs.drop_last() =~= run_outputs(s, earlier));
        assert forall|k: int| 0 <= k < outs.len() implies !lists(#[trigger] outs[k])
            && !requests_archive(outs[k]) by {
            if k < outs.len() - 1 {
                assert(outs[k] == run_outputs(s, earlier)[k]);
            }
        }
    }
}

/// A run asks for the archive at most once, and not at all while it lists.
pub proof fn lemma_archive_requests(s: EngineView, inputs: Seq<Input>)
    ensures
        archive_requests(run_outputs(s, inputs)) <= 1,
        run_state(s, inputs).phase == Phase::Listing ==> archive_requests(run_outputs(s, inputs))
            == 0,
        s.phase != Phase::Listing ==> archive_requests(run_outputs(s, inputs)) == 0,
    decreases inputs.len(),
{
    if s.phase != Phase::Listing {
        lemma_no_listing_after(s, inputs);
    } else if inputs.len() > 0 {
        let earlier = inputs.drop_last();
        let m = run_state(s, earlier);
        lemma_archive_requests(s, earlier);
        lemma_step_strategy(m, inputs.last().event, inputs.last().cancelled);
        assert(run_outputs(s, inputs).drop_last() =~= run_outputs(s, earlier));
    }
}

/// A whole repository is acquired from the archive: the first thing asked
/// for is the archive, and no step of the run ever asks for a listing, or
/// for the archive again.
pub proof fn lemma_whole_repository_takes_archive(
    info: RepositoryRef,
    output_path: Seq<char>,
    options: GitDownloadOptions,
    inputs: Seq<Input>,
)
    requires
        info.path.len() == 0,
    ensures
        ({
            let (s, out) = start_view(info, output_path, options);
            let outs = run_outputs(s, inputs);
            &&& out.action == (ActionView::DownloadArchive { url: archive_url(info) })
            &&& forall|k: int| 0 <= k < outs.len() ==> !lists(#[trigger] outs[k])
            &&& archive_requests(outs) == 0
        }),
{
    let (s, out) = start_view(info, output_path, options);
    lemma_no_listing_after(s, inputs);
}

/// A directory is listed first: the first thing asked for is its listing.
pub proof fn lemma_directory_is_listed_first(
    info: RepositoryRef,
    output_path: Seq<char>,
    options: GitDownloadOptions,
)
    requires
        info.path.len() > 0,
    ensures
        ({
            let (s, out) = start_view(info, output_path, options);
            &&& lists(out)
            &&& s.phase == Phase::Listing
            &&& s.listed_path == info.path
        }),
{
}

/// A refused listing ends the run. When a listing is answered with status
/// 403, the run fails at once, as rate-limited when the quota header says
/// zero and as access-denied otherwise, and whatever happens later the
/// archive is never asked for: every later step does nothing.
pub proof fn lemma_refused_listing_ends_run(
    s: EngineView,
    remaining: Option<Seq<char>>,
    items: Seq<crate::model::ContentItem>,
    cancelled: bool,
    rest: Seq<Input>,
)
    requires
        s.phase == Phase::Listing,
    ensures
        ({
            let event = EventView::ListingAnswered {
                status: 403,
                rate_limit_remaining: remaining,
                items,
            };
            let (t, out) = step_view(s, event, cancelled);
            let outs = run_outputs(t, rest);
            &&& out.events.len() == 0
            &&& out.action == ActionView::Finish(
                Err(
                    if quota_exhausted(remaining) {
                        ErrorView::RateLimited(Endpoint::Listing)
                    } else {
                        ErrorView::AccessDenied
                    },
                ),
            )
            &&& !requests_archive(out)
            &&& archive_requests(outs) == 0
            &&& forall|k: int| 0 <= k < outs.len() ==> (#[trigger] outs[k]).action is Idle
        }),
{
    let event = EventView::ListingAnswered { status: 403, rate_limit_remaining: remaining, items };
    let (t, out) = step_view(s, event, cancelled);
    lemma_over_stays_over(t, rest);
    lemma_no_listing_after(t, rest);
}

/// A run from a state that is over does nothing.
pub proof fn lemma_over_stays_over(s: EngineView, inputs: Seq<Input>)
    requires
        is_over(s),
    ensures
        run_state(s, inputs) == s,
        forall|k: int|
            0 <= k < run_outputs(s, inputs).len() ==> (#[trigger] run_outputs(
                s,
                inputs,
            )[k]).action is Idle && run_outputs(s, inputs)[k].events.len() == 0,
    decreases inputs.len(),
{
    if inputs.len() > 0 {
        let earlier = inputs.drop_last();
        lemma_over_stays_over(s, earlier);
        let outs = run_outputs(s, inputs);
        assert forall|k: int| 0 <= k < outs.len() implies (#[trigger] outs[k]).action is Idle
            && outs[k].events.len() == 0 by {
            if k < outs.len() - 1 {
                assert(outs[k] == run_outputs(s, earlier)[k]);
            }
        }
    }
}

/// A listing that fails otherwise is answered by the archive, once. When a
/// listing fails with a status other than 403, or its request or body
/// fails, the step asks for the archive, and no later step asks for the
/// archive again or for a listing.
pub proof fn lemma_failed_listing_falls_back_once(
    s: EngineView,
    event: EventView,
    cancelled: bool,
    rest: Seq<Input>,
)
    requires
        s.phase == Phase::Listing,
        listing_failed_over(s, event),
    ensures
        ({
            let (t, out) = step_view(s, event, cancelled);
            let outs = run_outputs(t, rest);
            &&& out.action == (ActionView::DownloadArchive { url: archive_url(s.info) })
            &&& archive_requests(outs) == 0
            &&& forall|k: int|
                0 <= k < outs.len() ==> !lists(#[trigger] outs[k]) && !requests_archive(outs[k])
        }),
{
    let (t, out) = step_view(s, event, cancelled);
    lemma_no_listing_after(t, rest);
}

/// Over a whole acquisition the archive is asked for at most once, counting the start.
pub proof fn lemma_archive_requested_at_most_once(
    info: RepositoryRef,
    output_path: Seq<char>,
    options: GitDownloadOptions,
    inputs: Seq<Input>,
)
    ensures
        ({
            let (s, out) = start_view(info, output_path, options);
            archive_requests(seq![out] + run_outputs(s, inputs)) <= 1
        }),
{
    let (s, out) = start_view(info, output_path, options);
    lemma_archive_requests(s, inputs);
    lemma_archive_requests_concat(seq![out], run_outputs(s, inputs));
    assert(seq![out].drop_last() =~= Seq::<OutputView>::empty());
    assert(archive_requests(seq![out].drop_last()) == 0);
}

/// The requests of two runs of steps add up.
pub proof fn lemma_archive_requests_concat(a: Seq<OutputView>, b: Seq<OutputView>)
    ensures
        archive_requests(a + b) == archive_requests(a) + archive_requests(b),
    decreases b.len(),
{
    if b.len() == 0 {
        assert(a + b =~= a);
    } else {
        assert((a + b).drop_last() =~= a + b.drop_last());
        lemma_archive_requests_concat(a, b.drop_last());
    }
}

} // verus!
