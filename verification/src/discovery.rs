//! Which of the entries under the asset directory are compiled.
//!
//! A stylesheet whose name begins with an underscore is a partial: it is meant
//! to be pulled in by other stylesheets and is never compiled by itself. A
//! directory with such a name, below the asset directory, is left out with
//! everything below it. Of what
//! remains, the files whose name ends in `.sass` or `.scss` are compiled. A
//! directory is never compiled, whatever its name.

use vstd::prelude::*;
use crate::path::{
    last_dot, last_dot_is_last, names_of, paths_of, replace_extension, SassPath,
};

verus! {

/// Whether a name marks a partial: whether it begins with an underscore.
pub open spec fn is_partial_name(name: Seq<char>) -> bool {
    name.len() > 0 && name[0] == '_'
}

/// Whether a name ends like a stylesheet that can be compiled.
pub open spec fn is_stylesheet_name(name: Seq<char>) -> bool {
    ".sass"@.is_suffix_of(name) || ".scss"@.is_suffix_of(name)
}

/// One entry that a walk of a directory found.
#[derive(Debug, PartialEq, Eq)]
pub struct WalkEntry {
    /// The path of the entry: the path the walk started at, followed by the
    /// names that lead from there to the entry.
    pub path: SassPath,
    /// Whether the entry is a file. A directory is none.
    pub is_file: bool,
}

/// The content of a [`WalkEntry`].
pub struct WalkEntryModel {
    pub path: Seq<Seq<char>>,
    pub is_file: bool,
}

impl View for WalkEntry {
    type V = WalkEntryModel;

    open spec fn view(&self) -> WalkEntryModel {
        WalkEntryModel { path: self.path@, is_file: self.is_file }
    }
}

/// The entries of a list, each as its content.
pub open spec fn entries_of(entries: Seq<WalkEntry>) -> Seq<WalkEntryModel> {
    Seq::new(
        entries.len(),
        |i: int| WalkEntryModel { path: names_of(entries[i].path.segments@), is_file: entries[i].is_file },
    )
}

/// Whether a path has the names of a stylesheet that a walk from `root` comes
/// to. The path lies below the root: it begins with the names of the root
/// and goes on. None of the names after those of the root marks a partial;
/// the names of the root itself do not count. And the last name ends like a
/// stylesheet.
pub open spec fn is_stylesheet_path(root: Seq<Seq<char>>, path: Seq<Seq<char>>) -> bool {
    &&& root.is_prefix_of(path)
    &&& path.len() > root.len()
    &&& forall|i: int| root.len() <= i < path.len() ==> !is_partial_name(path[i])
    &&& is_stylesheet_name(path.last())
}

/// Whether a walk that starts at `root` and leaves out partials hands `entry`
/// to the compiler: whether the entry is a file, and its path that of a
/// stylesheet. A directory is never handed over, whatever its name.
pub open spec fn is_entry_point(root: Seq<Seq<char>>, entry: WalkEntryModel) -> bool {
    entry.is_file && is_stylesheet_path(root, entry.path)
}

/// The paths of the entries that are handed to the compiler, in the order of
/// the entries.
pub open spec fn chosen_paths(root: Seq<Seq<char>>, entries: Seq<WalkEntryModel>) -> Seq<
    Seq<Seq<char>>,
> {
    entries.filter(|entry: WalkEntryModel| is_entry_point(root, entry)).map_values(
        |entry: WalkEntryModel| entry.path,
    )
}

/// The pattern that the names of stylesheets match.
pub open spec fn stylesheet_glob() -> Seq<char> {
    "*.{sass,scss}"@
}

/// Matches a name against a glob pattern with `globset`: `Glob::new` parses
/// the pattern, `Glob::compile_matcher` compiles it and
/// `GlobMatcher::is_match` tests the name.
///
/// The contract speaks of one pattern only, `*.{sass,scss}`. In it `*` stands
/// for any run of characters, separators included, and the braces for one of
/// the two words; so a name matches exactly when it ends in `.sass` or in
/// `.scss`. This is taken from the documentation of `globset`, not proved.
#[verifier::external_body]
fn glob_is_match(pattern: &str, name: &str) -> (matched: bool)
    requires
        pattern@ == stylesheet_glob(),
    ensures
        matched == is_stylesheet_name(name@),
{
    match globset::Glob::new(pattern) {
        Ok(glob) => glob.compile_matcher().is_match(name),
        Err(_) => false,
    }
}

/// Tells whether an entry with this name is a partial.
pub fn is_partial_scss(name: &str) -> (partial: bool)
    ensures
        partial == is_partial_name(name@),
{
    let mut chars = name.chars();
    match chars.next() {
        Some(first) => first == '_',
        None => false,
    }
}

/// Tells whether a name ends like a stylesheet that can be compiled.
pub fn has_stylesheet_extension(name: &str) -> (matched: bool)
    ensures
        matched == is_stylesheet_name(name@),
{
    glob_is_match("*.{sass,scss}", name)
}

/// Tells whether the walk from `sass_path` hands `entry` to the compiler.
pub fn is_compiled(sass_path: &SassPath, entry: &WalkEntry) -> (compiled: bool)
    ensures
        compiled == is_entry_point(sass_path@, entry@),
{
    if !entry.is_file || !entry.path.starts_with(sass_path) {
        return false;
    }
    let start: usize = sass_path.segments.len();
    if entry.path.segments.len() == start {
        return false;
    }
    let mut i: usize = start;
    while i < entry.path.segments.len()
        invariant
            start <= i <= entry.path.segments.len(),
            start == sass_path@.len(),
            start < entry.path@.len(),
            forall|k: int| start <= k < i ==> !is_partial_name(entry.path@[k]),
        decreases entry.path.segments.len() - i,
    {
        if is_partial_scss(entry.path.segments[i].as_str()) {
            assert(is_partial_name(entry.path@[i as int]));
            return false;
        }
        i += 1;
    }
    match entry.path.file_name() {
        Some(name) => has_stylesheet_extension(name.as_str()),
        None => false,
    }
}

/// Picks, from what a walk of the asset directory found, the stylesheets to
/// compile.
///
/// `entries` are the entries that the walk of `sass_path` found, files and
/// directories alike. The result holds the paths of those for which
/// [`is_entry_point`] holds, in the order of the walk: files only. A walk
/// that found nothing, as that of a directory that does not exist, gives
/// nothing.
pub fn get_non_partial_scss(sass_path: &SassPath, entries: &Vec<WalkEntry>) -> (files: Vec<SassPath>)
    ensures
        paths_of(files@) == chosen_paths(sass_path@, entries_of(entries@)),
{
    let mut files: Vec<SassPath> = Vec::new();
    let mut i: usize = 0;
    while i < entries.len()
        invariant
            i <= entries.len(),
            paths_of(files@) == chosen_paths(sass_path@, entries_of(entries@.take(i as int))),
        decreases entries.len() - i,
    {
        let entry = &entries[i];
        if is_compiled(sass_path, entry) {
            files.push(entry.path.clone());
        }
        proof {
            let seen = entries_of(entries@.take(i + 1));
            assert(seen.drop_last() =~= entries_of(entries@.take(i as int)));
            lemma_chosen_paths_step(sass_path@, seen);
        }
        i += 1;
    }
    assert(entries@.take(i as int) =~= entries@);
    files
}

/// How the choice grows with one more entry: the path of the entry is added
/// where the entry is handed to the compiler, and nothing else changes.
proof fn lemma_chosen_paths_step(root: Seq<Seq<char>>, entries: Seq<WalkEntryModel>)
    requires
        entries.len() > 0,
    ensures
        chosen_paths(root, entries) == if is_entry_point(root, entries.last()) {
            chosen_paths(root, entries.drop_last()).push(entries.last().path)
        } else {
            chosen_paths(root, entries.drop_last())
        },
{
    reveal(Seq::filter);
}

/// Every path chosen is the path of a reported file, and has the names of a
/// stylesheet.
pub proof fn chosen_paths_are_reported_files(
    root: Seq<Seq<char>>,
    entries: Seq<WalkEntryModel>,
    k: int,
)
    requires
        0 <= k < chosen_paths(root, entries).len(),
    ensures
        is_stylesheet_path(root, chosen_paths(root, entries)[k]),
        exists|i: int|
            0 <= i < entries.len() && (#[trigger] entries[i]).is_file && entries[i].path
                == chosen_paths(root, entries)[k],
    decreases entries.len(),
{
    if entries.len() > 0 {
        lemma_chosen_paths_step(root, entries);
        let front = entries.drop_last();
        if k < chosen_paths(root, front).len() {
            chosen_paths_are_reported_files(root, front, k);
            let i = choose|i: int|
                0 <= i < front.len() && (#[trigger] front[i]).is_file && front[i].path
                    == chosen_paths(root, front)[k];
            assert(entries[i] == front[i]);
        } else {
            assert(entries[entries.len() - 1] == entries.last());
        }
    }
}

/// Every reported file with the names of a stylesheet is chosen.
pub proof fn reported_stylesheets_are_chosen(
    root: Seq<Seq<char>>,
    entries: Seq<WalkEntryModel>,
    i: int,
)
    requires
        0 <= i < entries.len(),
        is_entry_point(root, entries[i]),
    ensures
        chosen_paths(root, entries).contains(entries[i].path),
    decreases entries.len(),
{
    lemma_chosen_paths_step(root, entries);
    let front = entries.drop_last();
    if i < front.len() {
        reported_stylesheets_are_chosen(root, front, i);
        let at = choose|at: int|
            0 <= at < chosen_paths(root, front).len() && chosen_paths(root, front)[at]
                == entries[i].path;
        assert(chosen_paths(root, entries)[at] == entries[i].path);
    } else {
        let chosen = chosen_paths(root, entries);
        assert(chosen[chosen.len() - 1] == entries[i].path);
    }
}

/// The root itself is never chosen: every path chosen lies below the root,
/// so that something is left of it when the root is taken off.
pub proof fn the_root_is_not_chosen(root: Seq<Seq<char>>, entries: Seq<WalkEntryModel>, k: int)
    requires
        0 <= k < chosen_paths(root, entries).len(),
    ensures
        root.is_prefix_of(chosen_paths(root, entries)[k]),
        chosen_paths(root, entries)[k].len() > root.len(),
        chosen_paths(root, entries)[k] != root,
{
    chosen_paths_are_reported_files(root, entries, k);
}

/// Where no two reported entries have the same path, no path is chosen
/// twice.
pub proof fn no_path_is_chosen_twice(root: Seq<Seq<char>>, entries: Seq<WalkEntryModel>)
    requires
        forall|i: int, j: int|
            0 <= i < j < entries.len() ==> (#[trigger] entries[i]).path != (
            #[trigger] entries[j]).path,
    ensures
        chosen_paths(root, entries).no_duplicates(),
    decreases entries.len(),
{
    if entries.len() > 0 {
        lemma_chosen_paths_step(root, entries);
        let front = entries.drop_last();
        no_path_is_chosen_twice(root, front);
        let chosen = chosen_paths(root, front);
        assert forall|k: int| 0 <= k < chosen.len() implies chosen[k] != entries.last().path by {
            chosen_paths_are_reported_files(root, front, k);
            let i = choose|i: int|
                0 <= i < front.len() && (#[trigger] front[i]).is_file && front[i].path == chosen[k];
            assert(front[i] == entries[i]);
        }
    }
}

/// Leaving out, before the choice, entries that would not be chosen changes
/// nothing. So a walk may skip the directories that are partials, and with
/// them everything below, and the same stylesheets are compiled.
pub proof fn skipping_other_entries_changes_nothing(
    root: Seq<Seq<char>>,
    entries: Seq<WalkEntryModel>,
    walked: spec_fn(WalkEntryModel) -> bool,
)
    requires
        forall|entry: WalkEntryModel| is_entry_point(root, entry) ==> #[trigger] walked(entry),
    ensures
        chosen_paths(root, entries.filter(walked)) == chosen_paths(root, entries),
    decreases entries.len(),
{
    reveal(Seq::filter);
    if entries.len() > 0 {
        let front = entries.drop_last();
        skipping_other_entries_changes_nothing(root, front, walked);
        lemma_chosen_paths_step(root, entries);
        if walked(entries.last()) {
            let kept = front.filter(walked).push(entries.last());
            assert(kept.drop_last() =~= front.filter(walked));
        }
    }
}

/// A stylesheet is written under its own name with `css` as its extension,
/// whichever of the two extensions it had: `x.sass` and `x.scss` both give
/// `x.css`.
pub proof fn stylesheet_gets_the_css_extension(stem: Seq<char>)
    requires
        stem.len() > 0,
    ensures
        is_stylesheet_name(stem + ".sass"@),
        is_stylesheet_name(stem + ".scss"@),
        replace_extension(stem + ".sass"@, "css"@) == stem + ".css"@,
        replace_extension(stem + ".scss"@, "css"@) == stem + ".css"@,
{
    reveal_strlit(".sass");
    reveal_strlit(".scss");
    reveal_strlit(".css");
    reveal_strlit("css");
    let sass = stem + ".sass"@;
    let scss = stem + ".scss"@;
    last_dot_is_last(sass);
    last_dot_is_last(scss);
    assert(sass[stem.len() as int] == '.');
    assert(scss[stem.len() as int] == '.');
}

} // verus!
