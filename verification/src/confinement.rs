//! Nothing is written outside the output directory. Whatever the forge
//! lists and whatever names the archive holds, every file that the engine
//! asks to be written lies in the directory that receives the files: a file
//! or an entry whose path would leave it is passed over.

use crate::archive::{lemma_next_selected, next_selected};
use crate::laws::{run_outputs, run_state, Input};
use crate::layout::{
    file_accepted, final_output_dir, lemma_entry_lies_in, lemma_join_lies_in,
    lemma_listed_lies_in, lies_in, stays_below, subfolder_name,
};
use crate::model::{FileDescriptor, GitDownloadOptions, RepositoryRef};
use crate::transition::{
    accepted_upto, jobs_upto, start_view, step_view, ActionView, EngineView, EventView, Phase,
};
use vstd::prelude::*;

verus! {

/// Whether what an action asks for stays in the directory `dir`: the
/// directory to create is `dir` itself, and every file to write lies in it.
pub open spec fn keeps_to(action: ActionView, dir: Seq<char>) -> bool {
    match action {
        ActionView::CreateOutputDir { path } => path == dir,
        ActionView::FetchFiles { jobs } => forall|k: int|
            0 <= k < jobs.len() ==> lies_in(dir, (#[trigger] jobs[k]).destination),
        ActionView::ExtractEntry { destination, .. } => lies_in(dir, destination),
        _ => true,
    }
}

/// Whether the engine works for the acquisition of `info` into
/// `output_path`, and, once it has settled on the directory that receives
/// the files, has settled on the right one.
pub open spec fn serves(
    s: EngineView,
    info: RepositoryRef,
    output_path: Seq<char>,
    options: GitDownloadOptions,
) -> bool {
    &&& s.info == info
    &&& s.output_path == output_path
    &&& s.options == options
    &&& (s.phase == Phase::PreparingFetch || s.phase == Phase::Fetching || s.phase
        == Phase::PreparingExtract || s.phase == Phase::Extracting) ==> s.output_dir
        == final_output_dir(output_path, info, options)
}

/// The directory that receives the files is the requested one, or lies in
/// it, wherever the name of the folder to add stays below the directory it
/// is joined to. The name is the caller's own: the last segment of the path
/// asked for, or the repository's name.
pub proof fn lemma_output_dir_lies_in(
    output_path: Seq<char>,
    info: RepositoryRef,
    options: GitDownloadOptions,
)
    requires
        options.create_subfolder ==> stays_below(subfolder_name(info)),
    ensures
        final_output_dir(output_path, info, options) == output_path || lies_in(
            output_path,
            final_output_dir(output_path, info, options),
        ),
        output_path.is_prefix_of(final_output_dir(output_path, info, options)),
{
    if options.create_subfolder {
        lemma_join_lies_in(output_path, subfolder_name(info));
    }
}

/// The jobs of a batch are those of the accepted files, and each lies in
/// the output directory.
pub proof fn lemma_jobs_lie_in(
    files: Seq<FileDescriptor>,
    output_dir: Seq<char>,
    base: Seq<char>,
    flatten: bool,
    upto: int,
)
    requires
        0 <= upto <= files.len(),
    ensures
        jobs_upto(files, output_dir, base, flatten, upto).len() == accepted_upto(
            files,
            base,
            upto,
        ),
        forall|k: int|
            0 <= k < jobs_upto(files, output_dir, base, flatten, upto).len() ==> lies_in(
                output_dir,
                (#[trigger] jobs_upto(files, output_dir, base, flatten, upto)[k]).destination,
            ),
    decreases upto,
{
    if upto > 0 {
        lemma_jobs_lie_in(files, output_dir, base, flatten, upto - 1);
        let file = files[upto - 1];
        if file_accepted(file.relative_path, base) {
            lemma_listed_lies_in(output_dir, file.relative_path, base, flatten);
        }
    }
}

/// No step asks for a file outside the directory that receives the files:
/// what a step asks to create or write stays in the output directory of the
/// state it leads to.
pub proof fn lemma_step_keeps_to_directory(s: EngineView, event: EventView, cancelled: bool)
    ensures
        ({
            let (t, out) = step_view(s, event, cancelled);
            keeps_to(out.action, t.output_dir)
        }),
{
    let (t, out) = step_view(s, event, cancelled);
    match out.action {
        ActionView::FetchFiles { .. } => {
            lemma_jobs_lie_in(
                s.files,
                s.output_dir,
                s.info.path,
                s.options.flatten_structure,
                s.files.len() as int,
            );
        },
        ActionView::ExtractEntry { .. } => {
            let from: int = if event is OutputDirReady {
                0
            } else {
                s.cursor + 1
            };
            lemma_next_selected(s.entries, s.prefix, from);
            let entry = s.entries[next_selected(s.entries, s.prefix, from)];
            lemma_entry_lies_in(s.output_dir, entry, s.prefix, s.options.flatten_structure);
        },
        _ => {},
    }
}

/// A step keeps the engine to its acquisition, and a step that asks for
/// something to be created or written leads to a state that has settled on
/// the directory that receives the files.
pub proof fn lemma_step_serves(
    s: EngineView,
    event: EventView,
    cancelled: bool,
    info: RepositoryRef,
    output_path: Seq<char>,
    options: GitDownloadOptions,
)
    requires
        serves(s, info, output_path, options),
    ensures
        ({
            let (t, out) = step_view(s, event, cancelled);
            &&& serves(t, info, output_path, options)
            &&& (out.action is CreateOutputDir || out.action is FetchFiles
                || out.action is ExtractEntry) ==> t.output_dir == final_output_dir(
                output_path,
                info,
                options,
            )
        }),
{
}

/// Nothing that a run writes leaves the directory that receives the files.
/// Over a whole acquisition, whatever the events, the only directory asked for is
/// the one that receives the files, and every file fetched and every entry
/// extracted is written to a place in it: the directory joined with a name
/// that does not begin with `/` and has no `..` segment.
pub proof fn lemma_run_keeps_to_directory(
    info: RepositoryRef,
    output_path: Seq<char>,
    options: GitDownloadOptions,
    inputs: Seq<Input>,
)
    ensures
        ({
            let (s, out) = start_view(info, output_path, options);
            let dir = final_output_dir(output_path, info, options);
            let outs = run_outputs(s, inputs);
            &&& keeps_to(out.action, dir)
            &&& serves(run_state(s, inputs), info, output_path, options)
            &&& forall|k: int| 0 <= k < outs.len() ==> keeps_to((#[trigger] outs[k]).action, dir)
        }),
    decreases inputs.len(),
{
    let s = start_view(info, output_path, options).0;
    if inputs.len() > 0 {
        let earlier = inputs.drop_last();
        let m = run_state(s, earlier);
        let last = inputs.last();
        lemma_run_keeps_to_directory(info, output_path, options, earlier);
        lemma_step_serves(m, last.event, last.cancelled, info, output_path, options);
        lemma_step_keeps_to_directory(m, last.event, last.cancelled);
        let outs = run_outputs(s, inputs);
        let dir = final_output_dir(output_path, info, options);
        assert forall|k: int| 0 <= k < outs.len() implies keeps_to((#[trigger] outs[k]).action, dir) by {
            if k < outs.len() - 1 {
                assert(outs[k] == run_outputs(s, earlier)[k]);
            }
        }
    }
}

} // verus!
