//! File-system paths as the library sees them: a root marker and a list of
//! component names. Every rule of the trash is stated over this model; turning an
//! operating-system path into one is left to the caller.

use crate::text::chars_of;
use vstd::prelude::*;
use vstd::string::StringExecFns;
use vstd::utf8::char_u32_cast;

verus! {

/// Name of the trash directory below a mountpoint or the home directory.
pub const TRASH_DIR_NAME: &'static str = ".trasher";

/// Name of the directory, inside a trash directory, that holds the items in flight.
pub const TRASH_TRANSFER_DIRNAME: &'static str = ".#PARTIAL";

/// The mathematical model of a path.
#[verifier::ext_equal]
pub struct PathView {
    /// Whether the path starts at the file-system root.
    pub absolute: bool,
    /// The component names, outermost first.
    pub components: Seq<Seq<char>>,
}

impl PathView {
    /// The root of the file system.
    pub open spec fn root() -> PathView {
        PathView { absolute: true, components: Seq::empty() }
    }

    /// Whether `base` is this path or one of its ancestors, component by component.
    /// The empty relative path is an ancestor of every path.
    pub open spec fn starts_with(self, base: PathView) -> bool {
        ||| !base.absolute && base.components.len() == 0
        ||| self.absolute == base.absolute && base.components.is_prefix_of(self.components)
    }

    /// The path above this one: `None` for a path without components.
    pub open spec fn parent(self) -> Option<PathView> {
        if self.components.len() == 0 {
            None
        } else {
            Some(PathView { absolute: self.absolute, components: self.components.drop_last() })
        }
    }

    /// This path with one more component below it.
    pub open spec fn join(self, name: Seq<char>) -> PathView {
        PathView { absolute: self.absolute, components: self.components.push(name) }
    }

    /// `other` taken from this path: `other` itself where it is absolute, and
    /// otherwise this path with the components of `other` below it.
    pub open spec fn join_path(self, other: PathView) -> PathView {
        if other.absolute {
            other
        } else {
            PathView { absolute: self.absolute, components: self.components + other.components }
        }
    }

    /// The number of components.
    pub open spec fn depth(self) -> nat {
        self.components.len()
    }

    /// Whether this path comes before `other` in the order of paths: component by
    /// component, the root before every component, and a path before the paths
    /// below it.
    pub open spec fn before(self, other: PathView) -> bool {
        if self.absolute == other.absolute {
            components_before(self.components, other.components)
        } else if self.absolute {
            other.components.len() > 0
        } else {
            self.components.len() == 0
        }
    }

    /// Whether `self` lies strictly below `ancestor`.
    pub open spec fn is_strictly_below(self, ancestor: PathView) -> bool {
        &&& self.absolute == ancestor.absolute
        &&& ancestor.components.is_prefix_of(self.components)
        &&& ancestor.components.len() < self.components.len()
    }
}

/// Whether the text `a` comes before the text `b`: at the first place where they
/// differ `a` has the character with the smaller code, or `a` ends there and `b`
/// goes on.
pub open spec fn text_before(a: Seq<char>, b: Seq<char>) -> bool
    decreases a.len(),
{
    if b.len() == 0 {
        false
    } else if a.len() == 0 {
        true
    } else if a[0] != b[0] {
        (a[0] as u32) < (b[0] as u32)
    } else {
        text_before(a.drop_first(), b.drop_first())
    }
}

/// The kind of a component: 0 for `.`, the directory itself, 1 for `..`, the
/// directory above, and 2 for a name.
pub open spec fn component_kind(component: Seq<char>) -> int {
    if component == seq!['.'] {
        0
    } else if component == seq!['.', '.'] {
        1
    } else {
        2
    }
}

/// Whether the component `a` comes before the component `b`: `.` before `..`,
/// `..` before every name, and names in the order of their texts.
pub open spec fn component_before(a: Seq<char>, b: Seq<char>) -> bool {
    ||| component_kind(a) < component_kind(b)
    ||| component_kind(a) == 2 && component_kind(b) == 2 && text_before(a, b)
}

/// Whether the components `a` come before the components `b`: at the first place
/// where they differ `a` has the component that comes first, or `a` ends there
/// and `b` goes on.
pub open spec fn components_before(a: Seq<Seq<char>>, b: Seq<Seq<char>>) -> bool
    decreases a.len(),
{
    if b.len() == 0 {
        false
    } else if a.len() == 0 {
        true
    } else if a[0] != b[0] {
        component_before(a[0], b[0])
    } else {
        components_before(a.drop_first(), b.drop_first())
    }
}

/// Whether the paths stand in their order, each before all that follow it.
pub open spec fn is_sorted(paths: Seq<PathView>) -> bool {
    forall|i: int, j: int|
        0 <= i < j < paths.len() ==> (#[trigger] paths[i]).before(#[trigger] paths[j])
}

/// Of two texts either one comes before the other or they are the same, and never
/// two of these at once.
pub proof fn lemma_text_order(a: Seq<char>, b: Seq<char>)
    ensures
        a == b || text_before(a, b) || text_before(b, a),
        !(text_before(a, b) && text_before(b, a)),
        a == b ==> !text_before(a, b),
    decreases a.len(),
{
    if a.len() > 0 && b.len() > 0 && a[0] == b[0] {
        lemma_text_order(a.drop_first(), b.drop_first());
        if a.drop_first() == b.drop_first() {
            assert(a =~= seq![a[0]] + a.drop_first());
            assert(b =~= seq![b[0]] + b.drop_first());
            assert(a =~= b);
        }
    } else if a.len() == 0 && b.len() == 0 {
        assert(a =~= b);
    } else if a.len() > 0 && b.len() > 0 {
        // Different characters have different codes.
        char_u32_cast(a[0], a[0] as u32);
        char_u32_cast(b[0], b[0] as u32);
    }
}

/// The order of texts carries over: what comes before a text comes before all
/// that the text comes before.
pub proof fn lemma_text_transitive(a: Seq<char>, b: Seq<char>, c: Seq<char>)
    requires
        text_before(a, b),
        text_before(b, c),
    ensures
        text_before(a, c),
    decreases a.len(),
{
    if a.len() > 0 && b.len() > 0 && c.len() > 0 && a[0] == b[0] && b[0] == c[0] {
        lemma_text_transitive(a.drop_first(), b.drop_first(), c.drop_first());
    }
}

/// Of two components either one comes before the other or they are the same, and
/// never two of these at once.
pub proof fn lemma_component_order(a: Seq<char>, b: Seq<char>)
    ensures
        a == b || component_before(a, b) || component_before(b, a),
        !(component_before(a, b) && component_before(b, a)),
        a == b ==> !component_before(a, b),
{
    lemma_text_order(a, b);
}

/// The order of components carries over.
pub proof fn lemma_component_transitive(a: Seq<char>, b: Seq<char>, c: Seq<char>)
    requires
        component_before(a, b),
        component_before(b, c),
    ensures
        component_before(a, c),
{
    if component_kind(a) == 2 && component_kind(b) == 2 && component_kind(c) == 2 {
        lemma_text_transitive(a, b, c);
    }
}

/// Of two lists of components either one comes before the other or they are the
/// same, and never two of these at once.
pub proof fn lemma_components_order(a: Seq<Seq<char>>, b: Seq<Seq<char>>)
    ensures
        a == b || components_before(a, b) || components_before(b, a),
        !(components_before(a, b) && components_before(b, a)),
        a == b ==> !components_before(a, b),
    decreases a.len(),
{
    if a.len() > 0 && b.len() > 0 {
        if a[0] == b[0] {
            lemma_components_order(a.drop_first(), b.drop_first());
            if a.drop_first() == b.drop_first() {
                assert(a =~= seq![a[0]] + a.drop_first());
                assert(b =~= seq![b[0]] + b.drop_first());
                assert(a =~= b);
            }
        } else {
            lemma_component_order(a[0], b[0]);
        }
    } else if a.len() == 0 && b.len() == 0 {
        assert(a =~= b);
    }
}

/// The order of lists of components carries over.
pub proof fn lemma_components_transitive(
    a: Seq<Seq<char>>,
    b: Seq<Seq<char>>,
    c: Seq<Seq<char>>,
)
    requires
        components_before(a, b),
        components_before(b, c),
    ensures
        components_before(a, c),
    decreases a.len(),
{
    if a.len() > 0 && b.len() > 0 && c.len() > 0 {
        if a[0] == b[0] && b[0] == c[0] {
            lemma_components_transitive(a.drop_first(), b.drop_first(), c.drop_first());
        } else if a[0] != b[0] && b[0] != c[0] {
            lemma_component_transitive(a[0], b[0], c[0]);
            lemma_component_order(a[0], c[0]);
        }
    }
}

/// Of two paths either one comes before the other or they are the same, and never
/// two of these at once.
pub proof fn lemma_path_order(a: PathView, b: PathView)
    ensures
        a == b || a.before(b) || b.before(a),
        !(a.before(b) && b.before(a)),
        a == b ==> !a.before(b),
{
    lemma_components_order(a.components, b.components);
    if a.absolute == b.absolute && a.components == b.components {
        assert(a =~= b);
    }
}

/// The order of paths carries over.
pub proof fn lemma_path_transitive(a: PathView, b: PathView, c: PathView)
    requires
        a.before(b),
        b.before(c),
    ensures
        a.before(c),
{
    if a.absolute == b.absolute && b.absolute == c.absolute {
        lemma_components_transitive(a.components, b.components, c.components);
    }
}

/// No path stands twice among paths in their order.
pub proof fn lemma_sorted_paths_differ(paths: Seq<PathView>)
    requires
        is_sorted(paths),
    ensures
        paths.no_duplicates(),
{
    assert forall|i: int, j: int| 0 <= i < paths.len() && 0 <= j < paths.len() && i != j implies paths[i]
        != paths[j] by {
        lemma_path_order(paths[i], paths[j]);
        if i < j {
            assert(paths[i].before(paths[j]));
        } else {
            assert(paths[j].before(paths[i]));
        }
    }
}

/// Tests whether the text `a` comes before the text `b`.
pub fn text_comes_before(a: &Vec<char>, b: &Vec<char>) -> (first: bool)
    ensures
        first == text_before(a@, b@),
{
    assert(a@.skip(0) =~= a@ && b@.skip(0) =~= b@);
    let mut i: usize = 0;
    while i < a.len() && i < b.len() && a[i] == b[i]
        invariant
            i <= a.len(),
            i <= b.len(),
            text_before(a@, b@) == text_before(a@.skip(i as int), b@.skip(i as int)),
        decreases a.len() - i,
    {
        assert(a@.skip(i as int).drop_first() =~= a@.skip(i + 1));
        assert(b@.skip(i as int).drop_first() =~= b@.skip(i + 1));
        assert(a@.skip(i as int)[0] == a@[i as int]);
        assert(b@.skip(i as int)[0] == b@[i as int]);
        i += 1;
    }
    if i >= b.len() {
        assert(b@.skip(i as int).len() == 0);
        false
    } else if i >= a.len() {
        assert(a@.skip(i as int).len() == 0);
        assert(b@.skip(i as int).len() > 0);
        true
    } else {
        assert(a@.skip(i as int)[0] == a@[i as int]);
        assert(b@.skip(i as int)[0] == b@[i as int]);
        (a[i] as u32) < (b[i] as u32)
    }
}

/// The kind of a component: 0 for `.`, 1 for `..`, 2 for a name.
fn kind_of(component: &String) -> (kind: u8)
    ensures
        kind == component_kind(component@),
{
    proof {
        reveal_strlit(".");
        reveal_strlit("..");
        assert("."@ =~= seq!['.']);
        assert(".."@ =~= seq!['.', '.']);
    }
    if *component == String::from_str(".") {
        0
    } else if *component == String::from_str("..") {
        1
    } else {
        2
    }
}

/// Tests whether the component `a` comes before the component `b`.
pub fn component_comes_before(a: &String, b: &String) -> (first: bool)
    ensures
        first == component_before(a@, b@),
{
    let kind_a = kind_of(a);
    let kind_b = kind_of(b);
    if kind_a != kind_b {
        kind_a < kind_b
    } else if kind_a == 2 {
        text_comes_before(&chars_of(a.as_str()), &chars_of(b.as_str()))
    } else {
        false
    }
}

/// The texts of a list of strings.
pub open spec fn names_of(names: Seq<String>) -> Seq<Seq<char>> {
    Seq::new(names.len(), |i: int| names[i]@)
}

/// A path: either absolute or relative, with its component names.
#[derive(Debug, PartialEq, Eq)]
pub struct FsPath {
    /// Whether the path starts at the file-system root.
    pub absolute: bool,
    /// The component names, outermost first.
    pub components: Vec<String>,
}

impl View for FsPath {
    type V = PathView;

    open spec fn view(&self) -> PathView {
        PathView { absolute: self.absolute, components: names_of(self.components@) }
    }
}

impl Clone for FsPath {
    fn clone(&self) -> (copy: Self)
        ensures
            copy@ == self@,
    {
        let mut components: Vec<String> = Vec::new();
        let mut i: usize = 0;
        while i < self.components.len()
            invariant
                i <= self.components.len(),
                components.len() == i,
                forall|j: int| 0 <= j < i ==> components@[j]@ == self.components@[j]@,
            decreases self.components.len() - i,
        {
            components.push(self.components[i].clone());
            i += 1;
        }
        let copy = FsPath { absolute: self.absolute, components };
        assert(copy@ =~= self@);
        copy
    }
}

impl FsPath {
    /// The root of the file system.
    pub fn root() -> (path: FsPath)
        ensures
            path@ == PathView::root(),
    {
        let path = FsPath { absolute: true, components: Vec::new() };
        assert(path@ =~= PathView::root());
        path
    }

    /// The number of components.
    pub fn depth(&self) -> (n: usize)
        ensures
            n == self@.depth(),
    {
        self.components.len()
    }

    /// This path with the component `name` below it.
    pub fn join(&self, name: &str) -> (path: FsPath)
        ensures
            path@ == self@.join(name@),
    {
        let mut path = self.clone();
        path.components.push(name.to_owned());
        assert(path@ =~= self@.join(name@));
        path
    }

    /// `other` taken from this path: `other` itself where it is absolute, and
    /// otherwise this path with the components of `other` below it.
    pub fn join_path(&self, other: &FsPath) -> (path: FsPath)
        ensures
            path@ == self@.join_path(other@),
    {
        if other.absolute {
            return other.clone();
        }
        let mut path = self.clone();
        let mut i: usize = 0;
        while i < other.components.len()
            invariant
                i <= other.components.len(),
                path.absolute == self.absolute,
                path@.components == self@.components + other@.components.take(i as int),
            decreases other.components.len() - i,
        {
            let ghost before = path@.components;
            path.components.push(other.components[i].clone());
            assert(path@.components =~= before.push(other@.components[i as int]));
            assert(path@.components =~= self@.components + other@.components.take(i + 1));
            i += 1;
        }
        assert(other@.components.take(i as int) =~= other@.components);
        assert(path@ =~= self@.join_path(other@));
        path
    }

    /// The path above this one: `None` for a path without components.
    pub fn parent(&self) -> (above: Option<FsPath>)
        ensures
            match above {
                Some(path) => self@.parent() == Some(path@),
                None => self@.parent() is None,
            },
    {
        if self.components.len() == 0 {
            return None;
        }
        let mut path = self.clone();
        path.components.pop();
        assert(path@ =~= self@.parent()->0);
        Some(path)
    }

    /// Whether this path comes before `other` in the order of paths.
    pub fn comes_before(&self, other: &FsPath) -> (first: bool)
        ensures
            first == self@.before(other@),
    {
        if self.absolute != other.absolute {
            return if self.absolute {
                other.components.len() > 0
            } else {
                self.components.len() == 0
            };
        }
        let ghost mine = self@.components;
        let ghost theirs = other@.components;
        assert(mine.skip(0) =~= mine && theirs.skip(0) =~= theirs);
        let mut i: usize = 0;
        while i < self.components.len() && i < other.components.len() && self.components[i]
            == other.components[i]
            invariant
                i <= self.components.len(),
                i <= other.components.len(),
                mine == self@.components,
                theirs == other@.components,
                components_before(mine, theirs) == components_before(
                    mine.skip(i as int),
                    theirs.skip(i as int),
                ),
            decreases self.components.len() - i,
        {
            assert(mine.skip(i as int).drop_first() =~= mine.skip(i + 1));
            assert(theirs.skip(i as int).drop_first() =~= theirs.skip(i + 1));
            assert(mine.skip(i as int)[0] == self.components@[i as int]@);
            assert(theirs.skip(i as int)[0] == other.components@[i as int]@);
            i += 1;
        }
        if i >= other.components.len() {
            assert(theirs.skip(i as int).len() == 0);
            false
        } else if i >= self.components.len() {
            assert(mine.skip(i as int).len() == 0);
            assert(theirs.skip(i as int).len() > 0);
            true
        } else {
            assert(mine.skip(i as int)[0] == self.components@[i as int]@);
            assert(theirs.skip(i as int)[0] == other.components@[i as int]@);
            component_comes_before(&self.components[i], &other.components[i])
        }
    }

    /// Whether the two paths have the same root marker and the same components.
    pub fn same_as(&self, other: &FsPath) -> (same: bool)
        ensures
            same == (self@ == other@),
    {
        if self.absolute != other.absolute || self.components.len() != other.components.len() {
            assert(self@.components.len() != other@.components.len() || self@.absolute
                != other@.absolute);
            return false;
        }
        let mut i: usize = 0;
        while i < self.components.len()
            invariant
                i <= self.components.len(),
                self.components.len() == other.components.len(),
                forall|j: int| 0 <= j < i ==> self@.components[j] == other@.components[j],
            decreases self.components.len() - i,
        {
            if self.components[i] != other.components[i] {
                assert(self@.components[i as int] != other@.components[i as int]);
                return false;
            }
            i += 1;
        }
        assert(self@ =~= other@);
        true
    }

    /// Whether `base` is this path or one of its ancestors.
    pub fn starts_with(&self, base: &FsPath) -> (below: bool)
        ensures
            below == self@.starts_with(base@),
    {
        if !base.absolute && base.components.len() == 0 {
            return true;
        }
        if self.absolute != base.absolute || base.components.len() > self.components.len() {
            return false;
        }
        let mut i: usize = 0;
        while i < base.components.len()
            invariant
                i <= base.components.len(),
                base.components.len() <= self.components.len(),
                forall|j: int| 0 <= j < i ==> self@.components[j] == base@.components[j],
            decreases base.components.len() - i,
        {
            if self.components[i] != base.components[i] {
                proof {
                    let head = self@.components.subrange(0, base@.components.len() as int);
                    assert(head[i as int] == self@.components[i as int]);
                }
                return false;
            }
            i += 1;
        }
        assert(base@.components =~= self@.components.subrange(0, base@.components.len() as int));
        true
    }

    /// Whether `base` or one of the paths after it in `bases` is this path or one of
    /// its ancestors.
    pub fn starts_with_any(&self, bases: &Vec<FsPath>) -> (below: bool)
        ensures
            below == is_under_any(self@, paths_of(bases@)),
    {
        let mut i: usize = 0;
        while i < bases.len()
            invariant
                i <= bases.len(),
                forall|j: int| 0 <= j < i ==> !self@.starts_with(#[trigger] bases@[j]@),
            decreases bases.len() - i,
        {
            if self.starts_with(&bases[i]) {
                assert(paths_of(bases@)[i as int] == bases@[i as int]@);
                return true;
            }
            i += 1;
        }
        false
    }
}

/// The models of a list of paths.
pub open spec fn paths_of(paths: Seq<FsPath>) -> Seq<PathView> {
    Seq::new(paths.len(), |i: int| paths[i]@)
}

/// Whether one of `bases` is `path` or an ancestor of it.
pub open spec fn is_under_any(path: PathView, bases: Seq<PathView>) -> bool {
    exists|i: int| 0 <= i < bases.len() && path.starts_with(#[trigger] bases[i])
}

} // verus!
