//! The listing as the walk of a tree. The forge is modelled as a function
//! from the path of a directory to the items of its listing. When every
//! listing is answered with success, the engine finds the files of the tree
//! in the order of a depth-first walk.

use crate::lister::{descriptor_of, kind_of, walk, ItemKind};
use crate::layout::final_output_dir;
use crate::model::{ContentItem, FileDescriptor, GitDownloadOptions, RepositoryRef};
use crate::transition::{
    accepted_count, jobs_of, start_view, step_view, ActionView, EngineView, EventView, Phase,
};
use vstd::prelude::*;

verus! {

/// The files below `items`, in the order of a depth-first walk: a file with
/// an address for itself, a directory for the files below the items of its
/// listing, down to `depth` levels of directories.
pub open spec fn files_below(
    remote: spec_fn(Seq<char>) -> Seq<ContentItem>,
    items: Seq<ContentItem>,
    depth: nat,
) -> Seq<FileDescriptor>
    decreases depth, items.len(),
{
    if items.len() == 0 {
        Seq::empty()
    } else {
        let rest = files_below(remote, items.skip(1), depth);
        match kind_of(items[0].item_type) {
            ItemKind::File => match descriptor_of(items[0]) {
                Some(file) => seq![file] + rest,
                None => rest,
            },
            ItemKind::Dir => if depth == 0 {
                rest
            } else {
                files_below(remote, remote(items[0].path), (depth - 1) as nat) + rest
            },
            ItemKind::Other => rest,
        }
    }
}

/// Whether no directory lies more than `depth` levels below `items`.
pub open spec fn within_depth(
    remote: spec_fn(Seq<char>) -> Seq<ContentItem>,
    items: Seq<ContentItem>,
    depth: nat,
) -> bool
    decreases depth, items.len(),
{
    if items.len() == 0 {
        true
    } else {
        within_depth(remote, items.skip(1), depth) && match kind_of(items[0].item_type) {
            ItemKind::Dir => depth > 0 && within_depth(
                remote,
                remote(items[0].path),
                (depth - 1) as nat,
            ),
            _ => true,
        }
    }
}

/// How many directories lie below `items`, down to `depth` levels.
pub open spec fn directories_below(
    remote: spec_fn(Seq<char>) -> Seq<ContentItem>,
    items: Seq<ContentItem>,
    depth: nat,
) -> nat
    decreases depth, items.len(),
{
    if items.len() == 0 {
        0
    } else {
        let rest = directories_below(remote, items.skip(1), depth);
        match kind_of(items[0].item_type) {
            ItemKind::Dir => if depth == 0 {
                rest
            } else {
                1 + directories_below(remote, remote(items[0].path), (depth - 1) as nat) + rest
            },
            _ => rest,
        }
    }
}

/// The event that answers the listing that `s` waits for, with success.
pub open spec fn answer(remote: spec_fn(Seq<char>) -> Seq<ContentItem>, s: EngineView) -> EventView {
    EventView::ListingAnswered {
        status: 200,
        rate_limit_remaining: None,
        items: remote(s.listed_path),
    }
}

/// The state after up to `count` listings were answered with success, one
/// after the other, for as long as the engine lists.
pub open spec fn answered(
    remote: spec_fn(Seq<char>) -> Seq<ContentItem>,
    s: EngineView,
    count: nat,
) -> EngineView
    decreases count,
{
    if count == 0 || s.phase != Phase::Listing {
        s
    } else {
        answered(remote, step_view(s, answer(remote, s), false).0, (count - 1) as nat)
    }
}

/// A tree that is within a depth is within any greater depth, with the same
/// files and directories.
pub proof fn lemma_depth_is_enough(
    remote: spec_fn(Seq<char>) -> Seq<ContentItem>,
    items: Seq<ContentItem>,
    depth: nat,
    deeper: nat,
)
    requires
        within_depth(remote, items, depth),
        depth <= deeper,
    ensures
        within_depth(remote, items, deeper),
        files_below(remote, items, deeper) == files_below(remote, items, depth),
        directories_below(remote, items, deeper) == directories_below(remote, items, depth),
    decreases depth, items.len(),
{
    if items.len() > 0 {
        lemma_depth_is_enough(remote, items.skip(1), depth, deeper);
        if kind_of(items[0].item_type) == ItemKind::Dir {
            lemma_depth_is_enough(
                remote,
                remote(items[0].path),
                (depth - 1) as nat,
                (deeper - 1) as nat,
            );
        }
    }
}

/// The files and directories below two lists, one after the other, are
/// those below the first followed by those below the second.
pub proof fn lemma_below_both(
    remote: spec_fn(Seq<char>) -> Seq<ContentItem>,
    first: Seq<ContentItem>,
    second: Seq<ContentItem>,
    depth: nat,
)
    ensures
        within_depth(remote, first + second, depth) == (within_depth(remote, first, depth)
            && within_depth(remote, second, depth)),
        files_below(remote, first + second, depth) == files_below(remote, first, depth)
            + files_below(remote, second, depth),
        directories_below(remote, first + second, depth) == directories_below(
            remote,
            first,
            depth,
        ) + directories_below(remote, second, depth),
    decreases first.len(),
{
    if first.len() == 0 {
        assert(first + second =~= second);
        assert(files_below(remote, first, depth) + files_below(remote, second, depth)
            =~= files_below(remote, second, depth));
    } else {
        let all = first + second;
        assert(all[0] == first[0]);
        assert(all.skip(1) =~= first.skip(1) + second);
        lemma_below_both(remote, first.skip(1), second, depth);
        let tail = files_below(remote, first.skip(1), depth);
        let after = files_below(remote, second, depth);
        match kind_of(first[0].item_type) {
            ItemKind::File => {
                match descriptor_of(first[0]) {
                    Some(file) => {
                        assert(seq![file] + (tail + after) =~= (seq![file] + tail) + after);
                    },
                    None => {},
                }
            },
            ItemKind::Dir => {
                if depth > 0 {
                    let inner = files_below(remote, remote(first[0].path), (depth - 1) as nat);
                    assert(inner + (tail + after) =~= (inner + tail) + after);
                }
            },
            ItemKind::Other => {},
        }
    }
}

/// What one walk does to a tree. A walk over items that are within a depth
/// either ends, having found the files below them and no directory; or
/// stops at a directory, and then the files found so far, followed by the
/// files below the listing of that directory and below the items not yet
/// visited, are the files below the items walked, with one directory less
/// to list.
pub proof fn lemma_walk_of_tree(
    remote: spec_fn(Seq<char>) -> Seq<ContentItem>,
    items: Seq<ContentItem>,
    files: Seq<FileDescriptor>,
    depth: nat,
)
    requires
        within_depth(remote, items, depth),
    ensures
        ({
            let w = walk(items, files);
            match w.next_dir {
                None => {
                    &&& w.files == files + files_below(remote, items, depth)
                    &&& directories_below(remote, items, depth) == 0
                },
                Some(path) => {
                    let next = remote(path) + w.pending;
                    &&& within_depth(remote, next, depth)
                    &&& w.files + files_below(remote, next, depth) == files + files_below(
                        remote,
                        items,
                        depth,
                    )
                    &&& directories_below(remote, items, depth) == 1 + directories_below(
                        remote,
                        next,
                        depth,
                    )
                },
            }
        }),
    decreases items.len(),
{
    if items.len() == 0 {
        assert(files + files_below(remote, items, depth) =~= files);
    } else {
        let rest = items.skip(1);
        let below_rest = files_below(remote, rest, depth);
        match kind_of(items[0].item_type) {
            ItemKind::Dir => {
                let children = remote(items[0].path);
                let next = children + rest;
                lemma_depth_is_enough(remote, children, (depth - 1) as nat, depth);
                lemma_below_both(remote, children, rest, depth);
                assert(files + files_below(remote, next, depth) =~= files + (files_below(
                    remote,
                    children,
                    (depth - 1) as nat,
                ) + below_rest));
            },
            ItemKind::File => {
                match descriptor_of(items[0]) {
                    Some(file) => {
                        lemma_walk_of_tree(remote, rest, files.push(file), depth);
                        assert(files.push(file) + below_rest =~= files + (seq![file]
                            + below_rest));
                        let w = walk(items, files);
                        match w.next_dir {
                            Some(path) => {
                                let next = remote(path) + w.pending;
                                assert(w.files + files_below(remote, next, depth) == files.push(
                                    file,
                                ) + below_rest);
                            },
                            None => {},
                        }
                    },
                    None => {
                        lemma_walk_of_tree(remote, rest, files, depth);
                    },
                }
            },
            ItemKind::Other => {
                lemma_walk_of_tree(remote, rest, files, depth);
            },
        }
    }
}

/// The listing finds the tree. Let the engine wait for the listing of a
/// directory, and let every listing be answered with success. If no
/// directory lies more than `depth` levels down, then after one answer for
/// the directory and one for each directory below it, the engine no longer
/// lists, and the files it has found are those it had, followed by the
/// files of the tree in the order of a depth-first walk. With no accepted
/// file among them it has failed; otherwise it goes on to fetch those, with
/// nothing counted yet.
pub proof fn lemma_listing_finds_the_tree(
    remote: spec_fn(Seq<char>) -> Seq<ContentItem>,
    s: EngineView,
    depth: nat,
)
    requires
        s.phase == Phase::Listing,
        within_depth(remote, remote(s.listed_path) + s.pending, depth),
    ensures
        ({
            let tree = remote(s.listed_path) + s.pending;
            let end = answered(remote, s, 1 + directories_below(remote, tree, depth));
            &&& end.files == s.files + files_below(remote, tree, depth)
            &&& accepted_count(end.files, s.info.path) == 0 ==> end.phase == Phase::Failed
            &&& accepted_count(end.files, s.info.path) > 0 ==> {
                &&& end.phase == Phase::PreparingFetch
                &&& end.output_dir == final_output_dir(s.output_path, s.info, s.options)
                &&& end.processed == 0
                &&& end.bytes == 0
                &&& !end.cancel_seen
            }
            &&& end.info == s.info
            &&& end.options == s.options
        }),
    decreases directories_below(remote, remote(s.listed_path) + s.pending, depth),
{
    let tree = remote(s.listed_path) + s.pending;
    let count = directories_below(remote, tree, depth);
    let after = step_view(s, answer(remote, s), false).0;
    let w = walk(tree, s.files);
    lemma_walk_of_tree(remote, tree, s.files, depth);
    assert(answered(remote, s, 1 + count) == answered(remote, after, count));
    match w.next_dir {
        None => {
            assert(after.phase != Phase::Listing);
        },
        Some(path) => {
            assert(after.phase == Phase::Listing);
            assert(after.listed_path == path);
            assert(after.pending == w.pending);
            lemma_listing_finds_the_tree(remote, after, depth);
        },
    }
}

/// A directory is fetched whole. When the listings of a directory and of
/// all that lies below it are answered with success, and there is an
/// accepted file among them, the engine asks for the output directory and
/// then for one fetch for each accepted file of the tree, in the order of
/// the walk, each to the place that its path below the directory gives it.
pub proof fn lemma_directory_is_fetched_whole(
    remote: spec_fn(Seq<char>) -> Seq<ContentItem>,
    info: RepositoryRef,
    output_path: Seq<char>,
    options: GitDownloadOptions,
    depth: nat,
)
    requires
        info.path.len() > 0,
        within_depth(remote, remote(info.path), depth),
        accepted_count(files_below(remote, remote(info.path), depth), info.path) > 0,
    ensures
        ({
            let tree = remote(info.path);
            let s = start_view(info, output_path, options).0;
            let end = answered(remote, s, 1 + directories_below(remote, tree, depth));
            let (t, out) = step_view(end, EventView::OutputDirReady, false);
            &&& end.phase == Phase::PreparingFetch
            &&& t.phase == Phase::Fetching
            &&& out.action == ActionView::FetchFiles {
                jobs: jobs_of(
                    files_below(remote, tree, depth),
                    final_output_dir(output_path, info, options),
                    info.path,
                    options.flatten_structure,
                ),
            }
        }),
{
    let tree = remote(info.path);
    let s = start_view(info, output_path, options).0;
    assert(tree + s.pending =~= tree);
    lemma_listing_finds_the_tree(remote, s, depth);
    assert(s.files + files_below(remote, tree, depth) =~= files_below(remote, tree, depth));
}

} // verus!
