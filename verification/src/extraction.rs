//! What extraction leaves in the output directory. The directory is
//! modelled as a map from each file's path to the index of the archive entry
//! whose content it holds: an entry written later to the same path replaces
//! the earlier one.

use crate::archive::{
    clamp_u32, lemma_next_selected, next_selected, saturating_u32, selected_count, selected_upto,
};
use crate::laws::{run_outputs, run_state, Input};
use crate::layout::{entry_destination, entry_selected};
use crate::model::EntryView;
use crate::transition::{
    continue_extraction, step_view, ActionView, EngineView, EventView, OutputView, Phase,
};
use vstd::prelude::*;

verus! {

/// A directory: which entry's content stands at which path.
pub type Directory = Map<Seq<char>, int>;

/// The directory after the first `upto` entries of the archive were gone
/// through in order, each selected entry written to its destination, over
/// what stood there before.
pub open spec fn extracted_upto(
    before: Directory,
    entries: Seq<EntryView>,
    prefix: Seq<char>,
    output_dir: Seq<char>,
    flatten: bool,
    upto: int,
) -> Directory
    decreases upto,
{
    if upto <= 0 || upto > entries.len() {
        before
    } else {
        let earlier = extracted_upto(before, entries, prefix, output_dir, flatten, upto - 1);
        if entry_selected(entries[upto - 1], prefix) {
            earlier.insert(
                entry_destination(output_dir, entries[upto - 1].name, prefix, flatten),
                upto - 1,
            )
        } else {
            earlier
        }
    }
}

/// The directory after the whole archive was extracted over `before`.
pub open spec fn extracted(
    before: Directory,
    entries: Seq<EntryView>,
    prefix: Seq<char>,
    output_dir: Seq<char>,
    flatten: bool,
) -> Directory {
    extracted_upto(before, entries, prefix, output_dir, flatten, entries.len() as int)
}

/// The directory after the caller has done what the steps `outs` asked for,
/// over what stood there before.
pub open spec fn performed(before: Directory, outs: Seq<OutputView>) -> Directory
    decreases outs.len(),
{
    if outs.len() == 0 {
        before
    } else {
        let earlier = performed(before, outs.drop_last());
        match outs.last().action {
            ActionView::ExtractEntry { index, destination } => earlier.insert(
                destination,
                index as int,
            ),
            _ => earlier,
        }
    }
}

/// The sizes of the selected entries among the first `upto`, added up.
pub open spec fn selected_bytes_upto(entries: Seq<EntryView>, prefix: Seq<char>, upto: int) -> nat
    decreases upto,
{
    if upto <= 0 || upto > entries.len() {
        0
    } else {
        selected_bytes_upto(entries, prefix, upto - 1) + if entry_selected(
            entries[upto - 1],
            prefix,
        ) {
            entries[upto - 1].size as nat
        } else {
            0nat
        }
    }
}

/// `n`, or the largest `u64` when `n` is larger.
pub open spec fn clamp_u64(n: nat) -> u64 {
    if n > 0xffff_ffff_ffff_ffff {
        0xffff_ffff_ffff_ffffu64
    } else {
        n as u64
    }
}

/// Whether two states work on the same archive, for the same output directory and layout.
pub open spec fn same_archive(a: EngineView, b: EngineView) -> bool {
    &&& a.entries == b.entries
    &&& a.prefix == b.prefix
    &&& a.output_dir == b.output_dir
    &&& a.options == b.options
    &&& a.info == b.info
}

/// Round trip, entry by entry. After the archive was extracted, every
/// selected entry has a file at its destination, and that file holds the
/// content of a selected entry with the same destination that is not
/// earlier in the archive. It holds the entry's own content when no later
/// selected entry has the same destination, as is the case when the
/// structure is kept and the names in the archive are distinct.
pub proof fn lemma_selected_entry_is_written(
    before: Directory,
    entries: Seq<EntryView>,
    prefix: Seq<char>,
    output_dir: Seq<char>,
    flatten: bool,
    upto: int,
    i: int,
)
    requires
        0 <= i < upto <= entries.len(),
        entry_selected(entries[i], prefix),
    ensures
        ({
            let after = extracted_upto(before, entries, prefix, output_dir, flatten, upto);
            let path = entry_destination(output_dir, entries[i].name, prefix, flatten);
            &&& after.dom().contains(path)
            &&& i <= after[path] < upto
            &&& entry_selected(entries[after[path]], prefix)
            &&& entry_destination(output_dir, entries[after[path]].name, prefix, flatten) == path
            &&& (forall|j: int|
                i < j < upto && entry_selected(#[trigger] entries[j], prefix)
                    ==> entry_destination(output_dir, entries[j].name, prefix, flatten) != path)
                ==> after[path] == i
        }),
    decreases upto,
{
    if i < upto - 1 {
        lemma_selected_entry_is_written(before, entries, prefix, output_dir, flatten, upto - 1, i);
    }
}

/// Extraction writes nothing but selected entries: a path that was not in
/// the directory before holds, afterwards, a selected entry whose
/// destination it is.
pub proof fn lemma_written_file_is_selected(
    before: Directory,
    entries: Seq<EntryView>,
    prefix: Seq<char>,
    output_dir: Seq<char>,
    flatten: bool,
    upto: int,
    path: Seq<char>,
)
    requires
        0 <= upto <= entries.len(),
    ensures
        ({
            let after = extracted_upto(before, entries, prefix, output_dir, flatten, upto);
            &&& before.dom().contains(path) ==> after.dom().contains(path)
            &&& after.dom().contains(path) && !before.dom().contains(path) ==> {
                &&& 0 <= after[path] < upto
                &&& entry_selected(entries[after[path]], prefix)
                &&& entry_destination(output_dir, entries[after[path]].name, prefix, flatten)
                    == path
            }
        }),
    decreases upto,
{
    if upto > 0 {
        lemma_written_file_is_selected(
            before,
            entries,
            prefix,
            output_dir,
            flatten,
            upto - 1,
            path,
        );
    }
}

/// Extracting over a directory gives that directory with the extracted
/// files laid over it.
pub proof fn lemma_extracted_over(
    before: Directory,
    entries: Seq<EntryView>,
    prefix: Seq<char>,
    output_dir: Seq<char>,
    flatten: bool,
    upto: int,
)
    requires
        0 <= upto <= entries.len(),
    ensures
        extracted_upto(before, entries, prefix, output_dir, flatten, upto)
            == before.union_prefer_right(
            extracted_upto(Map::empty(), entries, prefix, output_dir, flatten, upto),
        ),
    decreases upto,
{
    let fresh = extracted_upto(Map::empty(), entries, prefix, output_dir, flatten, upto);
    let over = extracted_upto(before, entries, prefix, output_dir, flatten, upto);
    if upto > 0 {
        lemma_extracted_over(before, entries, prefix, output_dir, flatten, upto - 1);
    }
    assert(over =~= before.union_prefer_right(fresh));
}

/// Idempotence. Extracting the same archive again, over what the first
/// extraction left, changes nothing.
pub proof fn lemma_extraction_is_idempotent(
    entries: Seq<EntryView>,
    prefix: Seq<char>,
    output_dir: Seq<char>,
    flatten: bool,
)
    ensures
        ({
            let once = extracted(Map::empty(), entries, prefix, output_dir, flatten);
            extracted(once, entries, prefix, output_dir, flatten) == once
        }),
{
    let once = extracted(Map::empty(), entries, prefix, output_dir, flatten);
    lemma_extracted_over(once, entries, prefix, output_dir, flatten, entries.len() as int);
    assert(once.union_prefer_right(once) =~= once);
}

/// Going through entries that are not selected changes nothing.
pub proof fn lemma_unselected_are_passed_over(
    before: Directory,
    entries: Seq<EntryView>,
    prefix: Seq<char>,
    output_dir: Seq<char>,
    flatten: bool,
    from: int,
    upto: int,
)
    requires
        0 <= from <= upto <= entries.len(),
        forall|j: int| from <= j < upto ==> !entry_selected(#[trigger] entries[j], prefix),
    ensures
        extracted_upto(before, entries, prefix, output_dir, flatten, upto) == extracted_upto(
            before,
            entries,
            prefix,
            output_dir,
            flatten,
            from,
        ),
        selected_upto(entries, prefix, upto) == selected_upto(entries, prefix, from),
        selected_bytes_upto(entries, prefix, upto) == selected_bytes_upto(entries, prefix, from),
    decreases upto - from,
{
    if from < upto {
        lemma_unselected_are_passed_over(
            before,
            entries,
            prefix,
            output_dir,
            flatten,
            from,
            upto - 1,
        );
    }
}

/// What holds in the course of an extraction that began in state `s`, when
/// the run has come to state `m` and the steps so far were `outs`: the
/// archive is the same; while an entry is being extracted, it is a selected
/// one, and everything before it has been written and counted; and at
/// completion the whole archive has been written, and the files and bytes
/// counted are those of the selected entries.
pub open spec fn extraction_on_course(s: EngineView, m: EngineView, outs: Seq<OutputView>) -> bool {
    let done = performed(Map::empty(), outs);
    let flatten = s.options.flatten_structure;
    &&& same_archive(s, m)
    &&& match m.phase {
        Phase::PreparingExtract => done == Map::<Seq<char>, int>::empty(),
        Phase::Extracting => {
            &&& m.cursor < m.entries.len()
            &&& entry_selected(m.entries[m.cursor as int], m.prefix)
            &&& done == extracted_upto(
                Map::empty(),
                s.entries,
                s.prefix,
                s.output_dir,
                flatten,
                m.cursor + 1,
            )
            &&& m.processed == clamp_u32(selected_upto(s.entries, s.prefix, m.cursor as int))
            &&& m.bytes == clamp_u64(selected_bytes_upto(s.entries, s.prefix, m.cursor as int))
            &&& m.total == clamp_u32(selected_count(s.entries, s.prefix))
        },
        Phase::Complete => {
            &&& done == extracted(Map::empty(), s.entries, s.prefix, s.output_dir, flatten)
            &&& m.processed == clamp_u32(selected_count(s.entries, s.prefix))
            &&& m.bytes == clamp_u64(
                selected_bytes_upto(s.entries, s.prefix, s.entries.len() as int),
            )
        },
        Phase::Failed | Phase::Cancelled => true,
        _ => false,
    }
}

proof fn lemma_continue_on_course(
    s: EngineView,
    m: EngineView,
    outs: Seq<OutputView>,
    events: Seq<crate::model::ProgressEvent>,
    from: int,
    cancelled: bool,
)
    requires
        same_archive(s, m),
        0 <= from <= m.entries.len(),
        m.entries.len() <= usize::MAX,
        performed(Map::empty(), outs) == extracted_upto(
            Map::empty(),
            s.entries,
            s.prefix,
            s.output_dir,
            s.options.flatten_structure,
            from,
        ),
        m.processed == clamp_u32(selected_upto(s.entries, s.prefix, from)),
        m.bytes == clamp_u64(selected_bytes_upto(s.entries, s.prefix, from)),
        m.total == clamp_u32(selected_count(s.entries, s.prefix)),
    ensures
        ({
            let (t, out) = continue_extraction(m, events, from, cancelled);
            extraction_on_course(s, t, outs.push(out))
        }),
{
    let (t, out) = continue_extraction(m, events, from, cancelled);
    let next = next_selected(m.entries, m.prefix, from);
    let all = m.entries.len() as int;
    let flatten = s.options.flatten_structure;
    lemma_next_selected(m.entries, m.prefix, from);
    assert(outs.push(out).drop_last() =~= outs);
    if from < all && !cancelled {
        lemma_unselected_are_passed_over(
            Map::empty(),
            s.entries,
            s.prefix,
            s.output_dir,
            flatten,
            from,
            next,
        );
    }
}

/// One step keeps an extraction on course.
pub proof fn lemma_step_on_course(
    s: EngineView,
    m: EngineView,
    outs: Seq<OutputView>,
    event: EventView,
    cancelled: bool,
)
    requires
        extraction_on_course(s, m, outs),
        s.entries.len() <= usize::MAX,
    ensures
        ({
            let (t, out) = step_view(m, event, cancelled);
            extraction_on_course(s, t, outs.push(out))
        }),
{
    let (t, out) = step_view(m, event, cancelled);
    assert(outs.push(out).drop_last() =~= outs);
    match event {
        EventView::OutputDirReady => {
            if m.phase == Phase::PreparingExtract {
                let matching = clamp_u32(selected_count(m.entries, m.prefix));
                if !(matching == 0 && m.info.path.len() > 0) {
                    let m1 = EngineView { total: matching, processed: 0, bytes: 0, ..m };
                    lemma_continue_on_course(
                        s,
                        m1,
                        outs,
                        seq![crate::progress::found_entries_event(matching)],
                        0,
                        cancelled,
                    );
                }
            }
        },
        EventView::EntryExtracted => {
            if m.phase == Phase::Extracting {
                let size = m.entries[m.cursor as int].size;
                let processed = saturating_u32(m.processed, 1);
                let m1 = EngineView {
                    processed,
                    bytes: crate::archive::saturating_u64(m.bytes, size),
                    ..m
                };
                lemma_continue_on_course(
                    s,
                    m1,
                    outs,
                    seq![crate::progress::entry_extracted_event(processed, m.total)],
                    m.cursor + 1,
                    cancelled,
                );
            }
        },
        _ => {},
    }
}

/// Round trip, for the run. An extraction that begins with the output
/// directory ready stays on course whatever events follow. So when it
/// completes, the caller was asked to write exactly the selected entries of
/// the archive, each to its destination and in the order of the archive, and
/// the files and bytes counted are the selected entries and their sizes.
pub proof fn lemma_extraction_writes_the_selection(s: EngineView, inputs: Seq<Input>)
    requires
        s.phase == Phase::PreparingExtract,
        s.entries.len() <= usize::MAX,
    ensures
        extraction_on_course(s, run_state(s, inputs), run_outputs(s, inputs)),
        run_state(s, inputs).phase == Phase::Complete ==> performed(
            Map::empty(),
            run_outputs(s, inputs),
        ) == extracted(
            Map::empty(),
            s.entries,
            s.prefix,
            s.output_dir,
            s.options.flatten_structure,
        ),
    decreases inputs.len(),
{
    if inputs.len() > 0 {
        let earlier = inputs.drop_last();
        lemma_extraction_writes_the_selection(s, earlier);
        lemma_step_on_course(
            s,
            run_state(s, earlier),
            run_outputs(s, earlier),
            inputs.last().event,
            inputs.last().cancelled,
        );
    }
}

/// Two extractions of the same archive into the same directory, with the
/// same layout, leave the same files when both complete, whatever the
/// events of each were.
pub proof fn lemma_completed_extractions_agree(
    a: EngineView,
    inputs_a: Seq<Input>,
    b: EngineView,
    inputs_b: Seq<Input>,
)
    requires
        a.phase == Phase::PreparingExtract,
        b.phase == Phase::PreparingExtract,
        same_archive(a, b),
        a.entries.len() <= usize::MAX,
        run_state(a, inputs_a).phase == Phase::Complete,
        run_state(b, inputs_b).phase == Phase::Complete,
    ensures
        performed(Map::empty(), run_outputs(a, inputs_a)) == performed(
            Map::empty(),
            run_outputs(b, inputs_b),
        ),
{
    lemma_extraction_writes_the_selection(a, inputs_a);
    lemma_extraction_writes_the_selection(b, inputs_b);
}

} // verus!
