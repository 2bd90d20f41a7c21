//! Where things go: the output directory of an acquisition, and the place of
//! each file under it, for files found by listing and for archive entries.
//! Both strategies map a file of the requested directory to the same place.

use crate::model::{ArchiveEntry, EntryView, GitDownloadOptions, GitHubUrlInfo, RepositoryRef};
use crate::text::{
    after_last, after_last_char, before_first, before_first_char, first_other_from, followed_by,
    last_index, lemma_last_index_upto, strip_prefix, strip_prefix_of, to_chars, trim_leading,
    trim_leading_char,
};
use vstd::prelude::*;
use vstd::string::*;

verus! {

/// `name` appended to the directory `base`: a `/` is put between them unless
/// `base` is empty or ends with one, and a `name` that starts with `/` stands alone.
pub open spec fn join_path(base: Seq<char>, name: Seq<char>) -> Seq<char> {
    if name.len() > 0 && name[0] == '/' {
        name
    } else if base.len() == 0 || base.last() == '/' {
        base + name
    } else {
        base + seq!['/'] + name
    }
}

/// The folder that `create_subfolder` adds: the last segment of the path, or
/// the repository's name when the path is empty.
pub open spec fn subfolder_name(info: RepositoryRef) -> Seq<char> {
    if info.path.len() == 0 {
        info.repo
    } else {
        after_last(info.path, '/')
    }
}

/// The directory that receives the files: the requested one, or the
/// subfolder in it where one is asked for.
pub open spec fn final_output_dir(
    output_path: Seq<char>,
    info: RepositoryRef,
    options: GitDownloadOptions,
) -> Seq<char> {
    if options.create_subfolder {
        join_path(output_path, subfolder_name(info))
    } else {
        output_path
    }
}

/// A relative path as it is laid out: its last segment only when flattening.
pub open spec fn laid_out(relative: Seq<char>, flatten: bool) -> Seq<char> {
    if flatten {
        after_last(relative, '/')
    } else {
        relative
    }
}

/// The path of a listed file relative to the requested directory `base`:
/// the repository path without the prefix `base` and without the slashes
/// that follow it. A path that does not start with `base` is kept whole.
pub open spec fn listed_relative_path(repo_path: Seq<char>, base: Seq<char>) -> Seq<char> {
    if base.len() == 0 {
        repo_path
    } else {
        match strip_prefix(repo_path, base) {
            Some(rest) => trim_leading(rest, '/'),
            None => repo_path,
        }
    }
}

/// Where a listed file is written.
pub open spec fn listed_destination(
    output_dir: Seq<char>,
    repo_path: Seq<char>,
    base: Seq<char>,
    flatten: bool,
) -> Seq<char> {
    join_path(output_dir, laid_out(listed_relative_path(repo_path, base), flatten))
}

/// The top-level folder that wraps every entry of an archive, with its
/// slash: the first entry's name up to its first `/`.
pub open spec fn root_prefix(first_name: Seq<char>) -> Seq<char> {
    before_first(first_name, '/') + seq!['/']
}

/// The prefix that selects the entries of the requested directory.
pub open spec fn filter_prefix(root: Seq<char>, path: Seq<char>) -> Seq<char> {
    if path.len() == 0 {
        root
    } else {
        root + path + seq!['/']
    }
}

/// Whether a `..` segment stands in `s` at index `i`: two dots, with the
/// beginning of `s` or a `/` before them, and the end of `s` or a `/` after.
pub open spec fn parent_segment_at(s: Seq<char>, i: int) -> bool {
    &&& 0 <= i
    &&& i + 2 <= s.len()
    &&& s[i] == '.'
    &&& s[i + 1] == '.'
    &&& (i == 0 || s[i - 1] == '/')
    &&& (i + 2 == s.len() || s[i + 2] == '/')
}

/// Whether a relative name stays below the directory it is joined to: it
/// does not begin with `/`, and none of its segments is `..`.
pub open spec fn stays_below(name: Seq<char>) -> bool {
    &&& !(name.len() > 0 && name[0] == '/')
    &&& forall|i: int| !parent_segment_at(name, i)
}

/// Whether `destination` lies in the directory `dir`: it is `dir` joined
/// with a name that stays below it.
pub open spec fn lies_in(dir: Seq<char>, destination: Seq<char>) -> bool {
    exists|name: Seq<char>| #[trigger] stays_below(name) && destination == join_path(dir, name)
}

/// Whether a listed file is fetched: its path relative to the requested
/// directory stays below the output directory.
pub open spec fn file_accepted(repo_path: Seq<char>, base: Seq<char>) -> bool {
    stays_below(listed_relative_path(repo_path, base))
}

/// Whether an entry is a file of the requested directory: its name begins
/// with the prefix, it is no directory, and what follows the prefix stays
/// below the output directory.
pub open spec fn entry_selected(entry: EntryView, prefix: Seq<char>) -> bool {
    &&& prefix.is_prefix_of(entry.name)
    &&& !entry.is_dir
    &&& stays_below(entry.name.skip(prefix.len() as int))
}

/// An entry's path relative to the requested directory.
pub open spec fn entry_relative_path(name: Seq<char>, prefix: Seq<char>) -> Seq<char> {
    match strip_prefix(name, prefix) {
        Some(rest) => rest,
        None => name,
    }
}

/// Where a selected entry is written.
pub open spec fn entry_destination(
    output_dir: Seq<char>,
    name: Seq<char>,
    prefix: Seq<char>,
    flatten: bool,
) -> Seq<char> {
    join_path(output_dir, laid_out(entry_relative_path(name, prefix), flatten))
}

/// Joins a directory and a name.
pub fn join(base: &str, name: &str) -> (r: String)
    ensures
        r@ == join_path(base@, name@),
{
    proof {
        reveal_strlit("/");
    }
    let n = to_chars(name);
    if n.len() > 0 && n[0] == '/' {
        String::from_str(name)
    } else {
        let b = to_chars(base);
        if b.len() == 0 || b[b.len() - 1] == '/' {
            followed_by(base, name)
        } else {
            let mut out = followed_by(base, "/");
            out.append(name);
            assert("/"@ =~= seq!['/']);
            out
        }
    }
}

/// The folder that `create_subfolder` adds.
pub fn subfolder(info: &GitHubUrlInfo) -> (r: String)
    ensures
        r@ == subfolder_name(info@),
{
    if info.path.as_str().unicode_len() == 0 {
        info.repo.clone()
    } else {
        after_last_char(info.path.as_str(), '/')
    }
}

/// The directory that receives the files.
pub fn output_dir(output_path: &str, info: &GitHubUrlInfo, options: &GitDownloadOptions) -> (r:
    String)
    ensures
        r@ == final_output_dir(output_path@, info@, *options),
{
    if options.create_subfolder {
        let name = subfolder(info);
        join(output_path, name.as_str())
    } else {
        String::from_str(output_path)
    }
}

/// Lays out a relative path.
pub fn lay_out(relative: &str, flatten: bool) -> (r: String)
    ensures
        r@ == laid_out(relative@, flatten),
{
    if flatten {
        after_last_char(relative, '/')
    } else {
        String::from_str(relative)
    }
}

/// The path of a listed file relative to the requested directory.
pub fn relative_to_base(repo_path: &str, base: &str) -> (r: String)
    ensures
        r@ == listed_relative_path(repo_path@, base@),
{
    if base.unicode_len() == 0 {
        String::from_str(repo_path)
    } else {
        match strip_prefix_of(repo_path, base) {
            Some(rest) => trim_leading_char(rest.as_str(), '/'),
            None => String::from_str(repo_path),
        }
    }
}

/// Where a listed file is written. The place of an accepted file lies in
/// the output directory.
pub fn destination_of_listed(output_dir: &str, repo_path: &str, base: &str, flatten: bool) -> (r:
    String)
    ensures
        r@ == listed_destination(output_dir@, repo_path@, base@, flatten),
        file_accepted(repo_path@, base@) ==> lies_in(output_dir@, r@),
{
    proof {
        if file_accepted(repo_path@, base@) {
            lemma_listed_lies_in(output_dir@, repo_path@, base@, flatten);
        }
    }
    let relative = relative_to_base(repo_path, base);
    let placed = lay_out(relative.as_str(), flatten);
    join(output_dir, placed.as_str())
}

/// The top-level folder of an archive whose first entry is `first_name`.
pub fn archive_root(first_name: &str) -> (r: String)
    ensures
        r@ == root_prefix(first_name@),
{
    proof {
        reveal_strlit("/");
    }
    let mut out = before_first_char(first_name, '/');
    out.append("/");
    assert("/"@ =~= seq!['/']);
    out
}

/// The prefix that selects the entries of the requested directory.
pub fn archive_filter(root: &str, path: &str) -> (r: String)
    ensures
        r@ == filter_prefix(root@, path@),
{
    proof {
        reveal_strlit("/");
    }
    if path.unicode_len() == 0 {
        String::from_str(root)
    } else {
        let mut out = followed_by(root, path);
        out.append("/");
        assert("/"@ =~= seq!['/']);
        out
    }
}

/// Whether a relative name stays below the directory it is joined to.
pub fn is_below(name: &str) -> (r: bool)
    ensures
        r == stays_below(name@),
{
    let x = to_chars(name);
    let n = x.len();
    if n > 0 && x[0] == '/' {
        return false;
    }
    let mut i: usize = 0;
    while i < n
        invariant
            i <= n,
            n == x.len(),
            x@ == name@,
            forall|j: int| j < i ==> !parent_segment_at(name@, j),
        decreases n - i,
    {
        if x[i] == '.' && i + 1 < n && x[i + 1] == '.' && (i == 0 || x[i - 1] == '/') && (i + 2
            == n || x[i + 2] == '/') {
            assert(parent_segment_at(name@, i as int));
            return false;
        }
        i = i + 1;
    }
    true
}

/// Whether a listed file is fetched.
pub fn is_accepted(repo_path: &str, base: &str) -> (r: bool)
    ensures
        r == file_accepted(repo_path@, base@),
{
    let relative = relative_to_base(repo_path, base);
    is_below(relative.as_str())
}

/// Whether an entry is a file of the requested directory.
pub fn is_selected(entry: &ArchiveEntry, prefix: &str) -> (r: bool)
    ensures
        r == entry_selected(entry@, prefix@),
{
    if entry.is_dir {
        false
    } else {
        match strip_prefix_of(entry.name.as_str(), prefix) {
            Some(rest) => is_below(rest.as_str()),
            None => false,
        }
    }
}

/// Where an entry is written. The place of a selected entry lies in the
/// output directory.
pub fn destination_of_entry(output_dir: &str, name: &str, prefix: &str, flatten: bool) -> (r:
    String)
    ensures
        r@ == entry_destination(output_dir@, name@, prefix@, flatten),
        entry_selected(EntryView { name: name@, is_dir: false, size: 0 }, prefix@) ==> lies_in(
            output_dir@,
            r@,
        ),
{
    proof {
        let entry = EntryView { name: name@, is_dir: false, size: 0 };
        if entry_selected(entry, prefix@) {
            lemma_entry_lies_in(output_dir@, entry, prefix@, flatten);
        }
    }
    let relative = match strip_prefix_of(name, prefix) {
        Some(rest) => rest,
        None => String::from_str(name),
    };
    let placed = lay_out(relative.as_str(), flatten);
    join(output_dir, placed.as_str())
}

/// A name that stays below, laid out, stays below: flattening keeps its
/// last segment, which is not `..` and holds no `/`.
pub proof fn lemma_laid_out_stays_below(name: Seq<char>, flatten: bool)
    requires
        stays_below(name),
    ensures
        stays_below(laid_out(name, flatten)),
{
    if flatten {
        let cut = last_index(name, '/') + 1;
        let last = after_last(name, '/');
        lemma_last_index_upto(name, '/', name.len() as int);
        assert forall|i: int| 0 <= i < last.len() implies last[i] != '/' by {
            assert(last[i] == name[cut + i]);
        }
        assert forall|i: int| !parent_segment_at(last, i) by {
            if parent_segment_at(last, i) {
                assert(i == 0);
                assert(last.len() == 2);
                assert(last[0] == name[cut] && last[1] == name[cut + 1]);
                assert(parent_segment_at(name, cut));
            }
        }
    }
}

/// A name that stays below a directory is joined to it behind it: the
/// result lies in the directory, and begins with it.
pub proof fn lemma_join_lies_in(dir: Seq<char>, name: Seq<char>)
    requires
        stays_below(name),
    ensures
        lies_in(dir, join_path(dir, name)),
        dir.is_prefix_of(join_path(dir, name)),
        join_path(dir, name) == dir + name || join_path(dir, name) == dir + seq!['/'] + name,
{
    let joined = join_path(dir, name);
    assert(joined.subrange(0, dir.len() as int) =~= dir);
}

/// What lies in a directory begins with the directory.
pub proof fn lemma_lies_in_begins_with(dir: Seq<char>, destination: Seq<char>)
    requires
        lies_in(dir, destination),
    ensures
        dir.is_prefix_of(destination),
{
    let name = choose|name: Seq<char>| #[trigger]
        stays_below(name) && destination == join_path(dir, name);
    lemma_join_lies_in(dir, name);
}

/// A selected entry is written in the output directory, whether the
/// structure is kept or flattened.
pub proof fn lemma_entry_lies_in(
    output_dir: Seq<char>,
    entry: EntryView,
    prefix: Seq<char>,
    flatten: bool,
)
    requires
        entry_selected(entry, prefix),
    ensures
        lies_in(output_dir, entry_destination(output_dir, entry.name, prefix, flatten)),
{
    let relative = entry_relative_path(entry.name, prefix);
    lemma_laid_out_stays_below(relative, flatten);
    lemma_join_lies_in(output_dir, laid_out(relative, flatten));
}

/// An accepted file is written in the output directory, whether the
/// structure is kept or flattened.
pub proof fn lemma_listed_lies_in(
    output_dir: Seq<char>,
    repo_path: Seq<char>,
    base: Seq<char>,
    flatten: bool,
)
    requires
        file_accepted(repo_path, base),
    ensures
        lies_in(output_dir, listed_destination(output_dir, repo_path, base, flatten)),
{
    let relative = listed_relative_path(repo_path, base);
    lemma_laid_out_stays_below(relative, flatten);
    lemma_join_lies_in(output_dir, laid_out(relative, flatten));
}

/// Both strategies put a file in the same place. A file of the requested
/// directory `path`, at `rest` below it, is listed as `path/rest` and stands
/// in the archive as `root` followed by `path/rest`; either way it is
/// written where `rest`, laid out, falls under the output directory. The
/// same holds of a file of the whole repository, when `path` is empty.
pub proof fn lemma_strategies_agree(
    output_dir: Seq<char>,
    root: Seq<char>,
    path: Seq<char>,
    rest: Seq<char>,
    flatten: bool,
)
    requires
        rest.len() > 0,
        rest[0] != '/',
    ensures
        ({
            let place = join_path(output_dir, laid_out(rest, flatten));
            let listed = if path.len() == 0 {
                rest
            } else {
                path + seq!['/'] + rest
            };
            &&& listed_destination(output_dir, listed, path, flatten) == place
            &&& entry_destination(output_dir, root + listed, filter_prefix(root, path), flatten)
                == place
        }),
{
    let prefix = filter_prefix(root, path);
    if path.len() == 0 {
        assert((root + rest).subrange(0, root.len() as int) =~= root);
        assert((root + rest).skip(root.len() as int) =~= rest);
    } else {
        let listed = path + seq!['/'] + rest;
        let tail = seq!['/'] + rest;
        assert(listed.subrange(0, path.len() as int) =~= path);
        assert(listed.skip(path.len() as int) =~= tail);
        assert(first_other_from(tail, '/', 1) == 1);
        assert(first_other_from(tail, '/', 0) == 1);
        assert(tail.skip(1) =~= rest);
        assert((root + listed).subrange(0, prefix.len() as int) =~= prefix);
        assert((root + listed).skip(prefix.len() as int) =~= rest);
    }
}

} // verus!
