//! File paths as lists of parts, to be joined by whoever opens the file.
use std::path::PathBuf;
use vstd::prelude::*;

use crate::text;

verus! {

/// A path: its parts in order, each relative to the ones before it.
#[derive(Debug, PartialEq, Eq)]
pub struct PathParts {
    pub parts: Vec<String>,
}

impl DeepView for PathParts {
    type V = Seq<Seq<char>>;

    open spec fn deep_view(&self) -> Seq<Seq<char>> {
        self.parts.deep_view()
    }
}

impl Clone for PathParts {
    fn clone(&self) -> (copy: PathParts)
        ensures
            copy.deep_view() == self.deep_view(),
    {
        let parts = self.parts.clone();
        assert(parts.deep_view() =~= self.parts.deep_view());
        PathParts { parts }
    }
}

/// Whether all parts of a path are empty, so that it names nothing.
pub open spec fn names_nothing(parts: Seq<Seq<char>>) -> bool {
    forall|i: int| 0 <= i < parts.len() ==> (#[trigger] parts[i]).len() == 0
}

impl PathParts {
    /// The path with a single part.
    pub fn from_text(part: &str) -> (path: PathParts)
        ensures
            path.deep_view() == seq![part@],
    {
        let mut parts: Vec<String> = Vec::new();
        parts.push(part.to_owned());
        assert(parts.deep_view() =~= seq![part@]);
        PathParts { parts }
    }

    /// The path with one more part.
    pub fn join(self, part: &str) -> (path: PathParts)
        ensures
            path.deep_view() == self.deep_view().push(part@),
    {
        let ghost before = self.deep_view();
        let mut parts = self.parts;
        parts.push(part.to_owned());
        assert(parts.deep_view() =~= before.push(part@));
        PathParts { parts }
    }

    /// Whether all parts are empty, so that the path names nothing.
    pub fn is_empty(&self) -> (empty: bool)
        ensures
            empty == names_nothing(self.deep_view()),
    {
        let mut i: usize = 0;
        while i < self.parts.len()
            invariant
                i <= self.parts@.len(),
                forall|j: int| 0 <= j < i ==> (#[trigger] self.deep_view()[j]).len() == 0,
            decreases self.parts@.len() - i,
        {
            assert(self.deep_view()[i as int] == self.parts@[i as int]@);
            if !self.parts[i].as_str().is_empty() {
                return false;
            }
            i = i + 1;
        }
        true
    }
}

/// Whether the parts of two paths, each joined to a `PathBuf`, make the same path by the rules of
/// a system, which decide what separates the names in a path.
pub uninterp spec fn same_path_on(
    system: Seq<char>,
    a: Seq<Seq<char>>,
    b: Seq<Seq<char>>,
) -> bool;

/// Whether a text is a plain name: it begins with no dot, and nothing in it separates names or
/// drives on any system.
pub open spec fn is_plain_name(name: Seq<char>) -> bool {
    &&& name.len() > 0
    &&& name[0] != '.'
    &&& forall|i: int|
        0 <= i < name.len() ==> {
            &&& #[trigger] name[i] != '/'
            &&& name[i] != '\\'
            &&& name[i] != ':'
        }
}

/// Whether a path ends in a plain name: the name is its last part, or stands behind the last
/// slash in it.
pub open spec fn ends_in_name(path: Seq<Seq<char>>, name: Seq<char>) -> bool {
    &&& is_plain_name(name)
    &&& path.len() > 0
    &&& name.is_suffix_of(path.last())
    &&& path.last().len() > name.len() ==> path.last()[path.last().len() - name.len() - 1] == '/'
}

/// Whether two paths end in different plain names.
pub open spec fn named_differently(a: Seq<Seq<char>>, b: Seq<Seq<char>>) -> bool {
    exists|x: Seq<char>, y: Seq<char>|
        #[trigger] ends_in_name(a, x) && #[trigger] ends_in_name(b, y) && x != y
}

/// Whether some system takes two paths to be the same, which do not end in different names.
pub open spec fn may_be_same(a: Seq<Seq<char>>, b: Seq<Seq<char>>) -> bool {
    &&& !named_differently(a, b)
    &&& exists|system: Seq<char>| #[trigger] same_path_on(system, a, b)
}

/// Whether some system takes two paths to be different, which do not have the same parts.
pub open spec fn may_differ(a: Seq<Seq<char>>, b: Seq<Seq<char>>) -> bool {
    &&& a != b
    &&& exists|system: Seq<char>| !#[trigger] same_path_on(system, a, b)
}

/// Joins the parts of both paths to a `PathBuf` and compares the two.
///
/// Paths are compared by their components, and which those are is a matter of the system. What
/// is claimed is that a path is the same as one with the same parts, that paths which end in
/// different plain names are not the same, as their last components differ on every system, and
/// that the answer comes from the parts of both paths and the rules of some system alone: no
/// files are looked at. Which other paths a system takes to be the same is left unsaid.
#[verifier::external_body]
pub(crate) fn same_path(a: &PathParts, b: &PathParts) -> (same: bool)
    ensures
        a.deep_view() == b.deep_view() ==> same,
        named_differently(a.deep_view(), b.deep_view()) ==> !same,
        exists|system: Seq<char>|
            same == #[trigger] same_path_on(system, a.deep_view(), b.deep_view()),
{
    a.parts.iter().collect::<PathBuf>() == b.parts.iter().collect::<PathBuf>()
}

/// The text of a path that was typed in; none if it is blank.
pub open spec fn typed_path(value: Seq<char>) -> Option<Seq<char>> {
    if text::is_blank(value) {
        None
    } else {
        Some(text::trimmed(value))
    }
}

/// The text of a path that was typed in; none if it is blank.
pub fn path_from_text(value: &str) -> (path: Option<String>)
    ensures
        path.deep_view() == typed_path(value@),
{
    let inner = text::trim(value);
    if inner.is_empty() {
        None
    } else {
        Some(inner.to_owned())
    }
}

} // verus!
