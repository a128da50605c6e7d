//! Paths as sequences of names.
//!
//! A path is the list of the names that lead to a file or a directory, one per
//! level. How a path is written on a given system, with which separator and
//! from which root, is left to the code that reads directories and writes
//! files; here a path is only walked, extended, shortened and compared.

use vstd::prelude::*;
use vstd::std_specs::iter::IteratorSpec;
use vstd::string::{StrSliceExecFns, StringExecFns};
use crate::order::{name_le, path_le};

verus! {

/// A path: the names that lead to an entry, outermost first.
#[derive(Debug, PartialEq, Eq)]
pub struct SassPath {
    pub segments: Vec<String>,
}

/// The names of a list of strings, as sequences of characters.
pub open spec fn names_of(segments: Seq<String>) -> Seq<Seq<char>> {
    Seq::new(segments.len(), |i: int| segments[i]@)
}

/// The paths of a list, each as its sequence of names.
pub open spec fn paths_of(paths: Seq<SassPath>) -> Seq<Seq<Seq<char>>> {
    Seq::new(paths.len(), |i: int| names_of(paths[i].segments@))
}

impl View for SassPath {
    type V = Seq<Seq<char>>;

    open spec fn view(&self) -> Seq<Seq<char>> {
        names_of(self.segments@)
    }
}

impl Clone for SassPath {
    fn clone(&self) -> (copy: SassPath)
        ensures
            copy@ == self@,
    {
        let mut segments: Vec<String> = Vec::new();
        let mut i: usize = 0;
        while i < self.segments.len()
            invariant
                i <= self.segments.len(),
                segments@.len() == i,
                forall|k: int| 0 <= k < i ==> (#[trigger] segments@[k])@ == self.segments@[k]@,
            decreases self.segments.len() - i,
        {
            segments.push(self.segments[i].clone());
            i += 1;
        }
        SassPath { segments }
    }
}

impl SassPath {
    /// The empty path.
    pub fn new() -> (path: SassPath)
        ensures
            path@ == Seq::<Seq<char>>::empty(),
    {
        SassPath { segments: Vec::new() }
    }

    /// Appends one name to the path.
    pub fn push(&mut self, name: &str)
        ensures
            final(self)@ == old(self)@.push(name@),
    {
        self.segments.push(name.to_owned());
    }

    /// The path that leads through `self` and then through `tail`.
    pub fn join(&self, tail: &SassPath) -> (joined: SassPath)
        ensures
            joined@ == self@ + tail@,
    {
        let mut joined = self.clone();
        let mut i: usize = 0;
        while i < tail.segments.len()
            invariant
                i <= tail.segments.len(),
                joined@ == self@ + tail@.take(i as int),
            decreases tail.segments.len() - i,
        {
            joined.push(tail.segments[i].as_str());
            i += 1;
        }
        joined
    }

    /// Whether two paths hold the same names in the same order.
    pub fn same_as(&self, other: &SassPath) -> (same: bool)
        ensures
            same == (self@ == other@),
    {
        if self.segments.len() != other.segments.len() {
            assert(self@.len() != other@.len());
            return false;
        }
        let mut i: usize = 0;
        while i < self.segments.len()
            invariant
                i <= self.segments.len(),
                self.segments.len() == other.segments.len(),
                forall|k: int| 0 <= k < i ==> self@[k] == other@[k],
            decreases self.segments.len() - i,
        {
            if self.segments[i] != other.segments[i] {
                assert(self@[i as int] != other@[i as int]);
                return false;
            }
            i += 1;
        }
        assert(self@ =~= other@);
        true
    }

    /// Whether the path leads through `base`: whether the names of `base` are
    /// the first names of the path.
    pub fn starts_with(&self, base: &SassPath) -> (under: bool)
        ensures
            under == base@.is_prefix_of(self@),
    {
        if base.segments.len() > self.segments.len() {
            return false;
        }
        let mut i: usize = 0;
        while i < base.segments.len()
            invariant
                i <= base.segments.len(),
                base.segments.len() <= self.segments.len(),
                forall|k: int| 0 <= k < i ==> self@[k] == base@[k],
            decreases base.segments.len() - i,
        {
            if self.segments[i] != base.segments[i] {
                assert(self@[i as int] != base@[i as int]);
                return false;
            }
            i += 1;
        }
        true
    }

    /// The rest of the path below `base`, where the path leads through
    /// `base`; nothing where it does not.
    pub fn strip_prefix(&self, base: &SassPath) -> (rest: Option<SassPath>)
        ensures
            base@.is_prefix_of(self@) ==> rest is Some && rest->0@ == self@.skip(
                base@.len() as int,
            ),
            !base@.is_prefix_of(self@) ==> rest is None,
    {
        if !self.starts_with(base) {
            return None;
        }
        let mut rest = SassPath::new();
        let start = base.segments.len();
        let mut i: usize = start;
        while i < self.segments.len()
            invariant
                start <= i <= self.segments.len(),
                start == base@.len(),
                rest@ == self@.subrange(start as int, i as int),
            decreases self.segments.len() - i,
        {
            rest.push(self.segments[i].as_str());
            i += 1;
        }
        Some(rest)
    }

    /// The path without its last name. The empty path has no parent.
    pub fn parent(&self) -> (parent: Option<SassPath>)
        ensures
            self@.len() == 0 ==> parent is None,
            self@.len() > 0 ==> parent is Some && parent->0@ == self@.drop_last(),
    {
        if self.segments.len() == 0 {
            return None;
        }
        let mut parent = SassPath::new();
        let end = self.segments.len() - 1;
        let mut i: usize = 0;
        while i < end
            invariant
                i <= end,
                end + 1 == self.segments.len(),
                parent@ == self@.take(i as int),
            decreases end - i,
        {
            parent.push(self.segments[i].as_str());
            i += 1;
        }
        Some(parent)
    }
}

/// The position of the last dot of a name, or -1 where the name has none.
pub open spec fn last_dot(name: Seq<char>) -> int
    decreases name.len(),
{
    if name.len() == 0 {
        -1
    } else if name.last() == '.' {
        name.len() - 1
    } else {
        last_dot(name.drop_last())
    }
}

/// A name without its extension. The extension starts at the last dot of the
/// name; a dot at the very start of a name begins no extension.
pub open spec fn file_stem(name: Seq<char>) -> Seq<char> {
    if last_dot(name) > 0 {
        name.take(last_dot(name))
    } else {
        name
    }
}

/// A name with its extension replaced: the stem, then a dot and the new
/// extension. An empty extension leaves the stem alone.
pub open spec fn replace_extension(name: Seq<char>, extension: Seq<char>) -> Seq<char> {
    if extension.len() == 0 {
        file_stem(name)
    } else {
        file_stem(name) + seq!['.'] + extension
    }
}

/// A path with the extension of its last name replaced. The empty path has no
/// name and stays empty.
pub open spec fn with_extension(path: Seq<Seq<char>>, extension: Seq<char>) -> Seq<Seq<char>> {
    if path.len() == 0 {
        path
    } else {
        path.drop_last().push(replace_extension(path.last(), extension))
    }
}

/// The names of a path written one after the other with a slash in between.
pub open spec fn joined(names: Seq<Seq<char>>) -> Seq<char>
    decreases names.len(),
{
    if names.len() == 0 {
        Seq::empty()
    } else if names.len() == 1 {
        names[0]
    } else {
        joined(names.drop_last()) + seq!['/'] + names.last()
    }
}

/// `last_dot` is what its name says: where it is not -1 it is the position of
/// a dot, and no dot stands after it.
pub proof fn last_dot_is_last(name: Seq<char>)
    ensures
        -1 <= last_dot(name) < name.len(),
        last_dot(name) >= 0 ==> name[last_dot(name)] == '.',
        forall|j: int| last_dot(name) < j < name.len() ==> name[j] != '.',
    decreases name.len(),
{
    if name.len() > 0 && name.last() != '.' {
        let front = name.drop_last();
        last_dot_is_last(front);
        assert forall|j: int| last_dot(name) < j < name.len() implies name[j] != '.' by {
            if j < front.len() {
                assert(front[j] == name[j]);
            }
        }
    }
}

/// Finds the last dot of a name.
pub fn find_last_dot(name: &str) -> (dot: Option<usize>)
    ensures
        match dot {
            Some(i) => i == last_dot(name@),
            None => last_dot(name@) == -1,
        },
{
    let n = name.unicode_len();
    let mut chars = name.chars();
    let mut dot: Option<usize> = None;
    let mut k: usize = 0;
    while k < n
        invariant
            k <= n,
            n == name@.len(),
            chars.remaining() == name@.skip(k as int),
            match dot {
                Some(i) => i == last_dot(name@.take(k as int)),
                None => last_dot(name@.take(k as int)) == -1,
            },
        decreases n - k,
    {
        let next = chars.next();
        assert(name@.take(k + 1).drop_last() =~= name@.take(k as int));
        if next == Some('.') {
            dot = Some(k);
        }
        k += 1;
    }
    dot
}

/// Replaces the extension of a name.
pub fn replace_name_extension(name: &str, extension: &str) -> (replaced: String)
    ensures
        replaced@ == replace_extension(name@, extension@),
{
    proof {
        last_dot_is_last(name@);
    }
    let stem = match find_last_dot(name) {
        Some(d) => if d > 0 {
            name.substring_char(0, d)
        } else {
            name
        },
        None => name,
    };
    let mut replaced = String::from_str(stem);
    if !extension.is_empty() {
        replaced.append(".");
        replaced.append(extension);
        proof {
            reveal_strlit(".");
        }
    }
    replaced
}

/// Whether the name `a` sorts before the name `b`, or is `b`.
pub fn name_precedes(a: &str, b: &str) -> (le: bool)
    ensures
        le == name_le(a@, b@),
{
    let mut left = a.chars();
    let mut right = b.chars();
    loop
        invariant
            name_le(a@, b@) == name_le(left.remaining(), right.remaining()),
            left.decrease() is Some,
        decreases left.decrease()->0,
    {
        let x = left.next();
        let y = right.next();
        match x {
            None => {
                return true;
            },
            Some(cx) => {
                match y {
                    None => {
                        return false;
                    },
                    Some(cy) => {
                        if cx != cy {
                            return (cx as u32) < (cy as u32);
                        }
                    },
                }
            },
        }
    }
}

impl SassPath {
    /// The last name of the path. The empty path has none.
    pub fn file_name(&self) -> (name: Option<&String>)
        ensures
            self@.len() == 0 ==> name is None,
            self@.len() > 0 ==> name is Some && name->0@ == self@.last(),
    {
        if self.segments.len() == 0 {
            None
        } else {
            Some(&self.segments[self.segments.len() - 1])
        }
    }

    /// The path with the extension of its last name replaced.
    pub fn with_extension(&self, extension: &str) -> (replaced: SassPath)
        ensures
            replaced@ == with_extension(self@, extension@),
    {
        match self.parent() {
            None => SassPath::new(),
            Some(parent) => {
                let mut replaced = parent;
                let name = replace_name_extension(
                    self.segments[self.segments.len() - 1].as_str(),
                    extension,
                );
                replaced.push(name.as_str());
                replaced
            },
        }
    }

    /// Whether the path sorts before `other`, or is `other`.
    pub fn precedes(&self, other: &SassPath) -> (le: bool)
        ensures
            le == path_le(self@, other@),
    {
        let mut i: usize = 0;
        assert(self@.skip(0) =~= self@);
        assert(other@.skip(0) =~= other@);
        loop
            invariant
                i <= self.segments.len(),
                i <= other.segments.len(),
                path_le(self@, other@) == path_le(self@.skip(i as int), other@.skip(i as int)),
            decreases self.segments.len() - i,
        {
            if i == self.segments.len() {
                return true;
            }
            if i == other.segments.len() {
                return false;
            }
            let a = self.segments[i].as_str();
            let b = other.segments[i].as_str();
            if self.segments[i] != other.segments[i] {
                return name_precedes(a, b);
            }
            assert(self@.skip(i as int).drop_first() =~= self@.skip(i + 1));
            assert(other@.skip(i as int).drop_first() =~= other@.skip(i + 1));
            i += 1;
        }
    }

    /// The path as text: its names with a slash between them.
    pub fn display(&self) -> (text: String)
        ensures
            text@ == joined(self@),
    {
        let mut text = String::new();
        let mut i: usize = 0;
        while i < self.segments.len()
            invariant
                i <= self.segments.len(),
                text@ == joined(self@.take(i as int)),
            decreases self.segments.len() - i,
        {
            if i > 0 {
                text.append("/");
                proof {
                    reveal_strlit("/");
                }
            }
            text.append(self.segments[i].as_str());
            assert(self@.take(i + 1).drop_last() =~= self@.take(i as int));
            i += 1;
        }
        assert(self@.take(i as int) =~= self@);
        text
    }
}

} // verus!
