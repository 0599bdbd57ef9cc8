//! Which trash directory governs a path: the most specific writable mountpoint
//! above it, or the home directory where no mountpoint qualifies or the path is
//! excluded.

use crate::paths::{
    is_sorted, is_under_any, lemma_path_order, lemma_path_transitive, lemma_sorted_paths_differ,
    paths_of, FsPath, PathView, TRASH_DIR_NAME,
};
use vstd::string::StringExecFns;
use vstd::prelude::*;

verus! {

/// The permission bits that let somebody write.
pub const WRITE_BITS: u32 = 0o222;

/// What the file system says of who may write to a directory.
#[derive(Debug, Clone, Copy, PartialEq, Eq, Structural)]
pub struct Permissions {
    /// Whether the directory is marked read-only.
    pub readonly: bool,
    /// The permission bits of the directory.
    pub mode: u32,
}

/// A mountpoint as the caller found it: its path, its permissions where they could
/// be read, and its canonical path where it has one.
#[derive(Debug, Clone, PartialEq, Eq)]
pub struct MountPoint {
    /// The path under which the system lists the mountpoint.
    pub path: FsPath,
    /// The permissions of the directory, `None` where they could not be read.
    pub permissions: Option<Permissions>,
    /// The canonical form of `path`, `None` where there is none.
    pub canonical: Option<FsPath>,
}

/// The mathematical model of a mountpoint.
pub struct MountView {
    pub path: PathView,
    pub permissions: Option<Permissions>,
    pub canonical: Option<PathView>,
}

impl View for MountPoint {
    type V = MountView;

    open spec fn view(&self) -> MountView {
        MountView {
            path: self.path@,
            permissions: self.permissions,
            canonical: match self.canonical {
                Some(path) => Some(path@),
                None => None,
            },
        }
    }
}

/// The models of a list of mountpoints.
pub open spec fn mounts_of(mounts: Seq<MountPoint>) -> Seq<MountView> {
    Seq::new(mounts.len(), |i: int| mounts[i]@)
}

/// Why no trash directory could be determined.
#[derive(Debug, Clone, Copy, PartialEq, Eq, Structural)]
pub enum ResolveError {
    /// The path has no canonical form: it does not exist, or cannot be resolved.
    ItemNotCanonical,
    /// The mountpoint at this position, the home directory counting as the last,
    /// is writable but has no canonical form.
    MountpointNotCanonical(usize),
}

/// Whether a directory with these permissions can be written to: its permissions
/// could be read, it is not read-only, and one of its write bits is set.
pub open spec fn is_writable(permissions: Option<Permissions>) -> bool {
    permissions matches Some(p) && !p.readonly && p.mode & WRITE_BITS != 0
}

/// Whether a mountpoint may hold a trash directory: it is not the root mountpoint
/// and it is writable.
pub open spec fn is_eligible(mount: MountView) -> bool {
    mount.path != PathView::root() && is_writable(mount.permissions)
}

/// Whether a mountpoint may hold the trash directory of `item`: it is eligible,
/// and its canonical path is absolute and is `item` or lies above it.
pub open spec fn is_candidate(mount: MountView, item: PathView) -> bool {
    is_eligible(mount) && (mount.canonical matches Some(c) && c.absolute && item.starts_with(c))
}

/// Whether `root` is the most specific of the candidates for `item` among the
/// first `upto` of `mounts`: the canonical path of one of them, and as deep as the
/// canonical path of any of them.
pub open spec fn is_most_specific_among(
    root: PathView,
    mounts: Seq<MountView>,
    item: PathView,
    upto: int,
) -> bool {
    &&& exists|i: int|
        0 <= i < upto && is_candidate(#[trigger] mounts[i], item) && mounts[i].canonical == Some(
            root,
        )
    &&& forall|i: int|
        0 <= i < upto && is_candidate(#[trigger] mounts[i], item)
            ==> mounts[i].canonical->0.depth() <= root.depth()
}

/// Whether `root` is the most specific of the candidates that `mounts` holds for
/// `item`.
pub open spec fn is_most_specific(root: PathView, mounts: Seq<MountView>, item: PathView) -> bool {
    is_most_specific_among(root, mounts, item, mounts.len() as int)
}

/// Whether `mounts` holds no candidate for `item`.
pub open spec fn no_candidate(mounts: Seq<MountView>, item: PathView) -> bool {
    forall|i: int| 0 <= i < mounts.len() ==> !is_candidate(#[trigger] mounts[i], item)
}

/// Whether `at` is the first position of an eligible mountpoint without a
/// canonical path.
pub open spec fn is_first_broken(mounts: Seq<MountView>, at: int) -> bool {
    &&& 0 <= at < mounts.len()
    &&& is_eligible(mounts[at]) && mounts[at].canonical is None
    &&& forall|i: int|
        0 <= i < at ==> !(is_eligible(#[trigger] mounts[i]) && mounts[i].canonical is None)
}

/// Whether every eligible mountpoint has a canonical path.
pub open spec fn none_broken(mounts: Seq<MountView>) -> bool {
    forall|i: int|
        0 <= i < mounts.len() ==> !(is_eligible(#[trigger] mounts[i]) && mounts[i].canonical
            is None)
}

/// The trash directory below `base`.
pub open spec fn trash_dir_of(base: PathView) -> PathView {
    base.join(TRASH_DIR_NAME@)
}

/// Whether `outcome` is what resolving a path must give.
///
/// `raw` is the path as given, `canonical` its canonical form where it has one,
/// `mounts` the system's mountpoints followed by the home directory, `home` the
/// home directory's path.
/// - A path without canonical form is an error, whatever the exclusions are.
/// - A path that is excluded, as given or in canonical form, gets the home trash.
/// - Otherwise every eligible mountpoint must have a canonical path; the most
///   specific candidate gets the trash, and the home directory where there is no
///   candidate.
pub open spec fn resolves_to(
    outcome: Result<PathView, ResolveError>,
    raw: PathView,
    canonical: Option<PathView>,
    mounts: Seq<MountView>,
    home: PathView,
    exclusions: Seq<PathView>,
) -> bool {
    match canonical {
        None => outcome == Err::<PathView, ResolveError>(ResolveError::ItemNotCanonical),
        Some(item) => {
            if is_under_any(raw, exclusions) || is_under_any(item, exclusions) {
                outcome == Ok::<PathView, ResolveError>(trash_dir_of(home))
            } else {
                match outcome {
                    Err(ResolveError::ItemNotCanonical) => false,
                    Err(ResolveError::MountpointNotCanonical(at)) => is_first_broken(
                        mounts,
                        at as int,
                    ),
                    Ok(dir) => {
                        &&& none_broken(mounts)
                        &&& if no_candidate(mounts, item) {
                            dir == trash_dir_of(home)
                        } else {
                            exists|root: PathView|
                                #[trigger] is_most_specific(root, mounts, item) && dir
                                    == trash_dir_of(root)
                        }
                    },
                }
            }
        },
    }
}

impl Permissions {
    /// Whether a directory with these permissions can be written to.
    pub fn writable(&self) -> (yes: bool)
        ensures
            yes == is_writable(Some(*self)),
    {
        !self.readonly && self.mode & WRITE_BITS != 0
    }
}

impl MountPoint {
    /// Whether the mountpoint may hold a trash directory.
    pub fn eligible(&self) -> (yes: bool)
        ensures
            yes == is_eligible(self@),
    {
        if self.path.same_as(&FsPath::root()) {
            return false;
        }
        match &self.permissions {
            Some(p) => p.writable(),
            None => false,
        }
    }
}

/// All candidates for one item lie on one line of ancestors, so two most specific
/// ones are the same path.
pub proof fn lemma_most_specific_unique(
    first: PathView,
    second: PathView,
    mounts: Seq<MountView>,
    item: PathView,
)
    requires
        is_most_specific(first, mounts, item),
        is_most_specific(second, mounts, item),
    ensures
        first == second,
{
    let i = choose|i: int|
        0 <= i < mounts.len() && is_candidate(#[trigger] mounts[i], item) && mounts[i].canonical
            == Some(first);
    let j = choose|j: int|
        0 <= j < mounts.len() && is_candidate(#[trigger] mounts[j], item) && mounts[j].canonical
            == Some(second);
    assert(is_candidate(mounts[i], item) && is_candidate(mounts[j], item));
    assert(first.depth() == second.depth());
    lemma_ancestors_of_same_depth(first, second, item);
}

/// Two absolute paths of the same depth that both lie above a third, or are it,
/// are equal.
pub proof fn lemma_ancestors_of_same_depth(first: PathView, second: PathView, item: PathView)
    requires
        first.absolute && second.absolute,
        item.starts_with(first),
        item.starts_with(second),
        first.depth() == second.depth(),
    ensures
        first == second,
{
    assert(first.components =~= item.components.subrange(0, first.components.len() as int));
    assert(second.components =~= item.components.subrange(0, second.components.len() as int));
    assert(first =~= second);
}

/// What a mountpoint has to offer for `item`: `None` where it is eligible but has
/// no canonical path, and otherwise its canonical path where it is a candidate.
fn offer_of<'a>(mount: &'a MountPoint, item: &FsPath) -> (offer: Option<Option<&'a FsPath>>)
    ensures
        match offer {
            None => is_eligible(mount@) && mount@.canonical is None,
            Some(None) => !is_candidate(mount@, item@) && !(is_eligible(mount@)
                && mount@.canonical is None),
            Some(Some(root)) => is_candidate(mount@, item@) && mount@.canonical == Some(root@),
        },
{
    if !mount.eligible() {
        return Some(None);
    }
    match &mount.canonical {
        None => None,
        Some(root) => if root.absolute && item.starts_with(root) {
            Some(Some(root))
        } else {
            Some(None)
        },
    }
}

/// Determines the trash directory for a path; no directory is created.
///
/// `path` is the path as given and `canonical` its canonical form, `None` where it
/// has none: such a path is an error before anything else is looked at.
/// `mountpoints` are the system's mountpoints and `home` is the home
/// directory, which stands in as one more mountpoint so that it can be preferred
/// to a mountpoint above it.
pub fn determine_trash_dir_for(
    path: &FsPath,
    canonical: Option<&FsPath>,
    mountpoints: &Vec<MountPoint>,
    home: &MountPoint,
    exclude_dirs: &Vec<FsPath>,
) -> (outcome: Result<FsPath, ResolveError>)
    ensures
        resolves_to(
            match outcome {
                Ok(dir) => Ok(dir@),
                Err(e) => Err(e),
            },
            path@,
            match canonical {
                Some(c) => Some(c@),
                None => None,
            },
            mounts_of(mountpoints@).push(home@),
            home@.path,
            paths_of(exclude_dirs@),
        ),
{
    let ghost mounts = mounts_of(mountpoints@).push(home@);
    let item = match canonical {
        Some(item) => item,
        None => {
            return Err(ResolveError::ItemNotCanonical);
        },
    };
    if path.starts_with_any(exclude_dirs) {
        return Ok(home.path.join(TRASH_DIR_NAME));
    }
    if item.starts_with_any(exclude_dirs) {
        return Ok(home.path.join(TRASH_DIR_NAME));
    }
    let mut found: Option<&FsPath> = None;
    let mut i: usize = 0;
    while i < mountpoints.len()
        invariant
            i <= mountpoints.len(),
            mounts == mounts_of(mountpoints@).push(home@),
            canonical == Some(item),
            !is_under_any(path@, paths_of(exclude_dirs@)),
            !is_under_any(item@, paths_of(exclude_dirs@)),
            forall|k: int|
                0 <= k < i ==> !(is_eligible(#[trigger] mounts[k]) && mounts[k].canonical is None),
            match found {
                None => forall|k: int| 0 <= k < i ==> !is_candidate(#[trigger] mounts[k], item@),
                Some(root) => is_most_specific_among(root@, mounts, item@, i as int),
            },
        decreases mountpoints.len() - i,
    {
        assert(mountpoints[i as int]@ == mounts[i as int]);
        match offer_of(&mountpoints[i], item) {
            None => {
                assert(is_first_broken(mounts, i as int));
                return Err(ResolveError::MountpointNotCanonical(i));
            },
            Some(None) => {},
            Some(Some(root)) => {
                let deeper = match found {
                    None => true,
                    Some(previous) => root.depth() >= previous.depth(),
                };
                if deeper {
                    found = Some(root);
                }
            },
        }
        i += 1;
    }
    assert(home@ == mounts[i as int]);
    match offer_of(home, item) {
        None => {
            assert(is_first_broken(mounts, i as int));
            return Err(ResolveError::MountpointNotCanonical(i));
        },
        Some(None) => {},
        Some(Some(root)) => {
            let deeper = match found {
                None => true,
                Some(previous) => root.depth() >= previous.depth(),
            };
            if deeper {
                found = Some(root);
            }
        },
    }
    assert(mounts.len() == i + 1);
    assert(none_broken(mounts));
    match found {
        Some(root) => {
            assert(is_most_specific(root@, mounts, item@));
            assert(!no_candidate(mounts, item@));
            Ok(root.join(TRASH_DIR_NAME))
        },
        None => {
            assert(no_candidate(mounts, item@));
            Ok(home.path.join(TRASH_DIR_NAME))
        },
    }
}

/// A path that has a canonical form and is excluded, as given or in that form,
/// gets the home trash, whatever the mountpoints are.
pub proof fn lemma_excluded_path_gets_home_trash(
    outcome: Result<PathView, ResolveError>,
    raw: PathView,
    canonical: Option<PathView>,
    mounts: Seq<MountView>,
    home: PathView,
    exclusions: Seq<PathView>,
)
    requires
        resolves_to(outcome, raw, canonical, mounts, home, exclusions),
        canonical is Some,
        is_under_any(raw, exclusions) || is_under_any(canonical->0, exclusions),
    ensures
        outcome == Ok::<PathView, ResolveError>(trash_dir_of(home)),
{
}

/// A directory that the user asked to exclude, as the caller found it.
#[derive(Debug, Clone, PartialEq, Eq)]
pub struct ExcludeCandidate {
    /// Whether the path is an existing directory.
    pub is_dir: bool,
    /// The canonical form of the path, `None` where it has none.
    pub canonical: Option<FsPath>,
}

/// The mathematical model of an exclusion candidate.
pub struct ExcludeView {
    pub is_dir: bool,
    pub canonical: Option<PathView>,
}

impl View for ExcludeCandidate {
    type V = ExcludeView;

    open spec fn view(&self) -> ExcludeView {
        ExcludeView {
            is_dir: self.is_dir,
            canonical: match self.canonical {
                Some(path) => Some(path@),
                None => None,
            },
        }
    }
}

/// The models of a list of exclusion candidates.
pub open spec fn candidates_of(candidates: Seq<ExcludeCandidate>) -> Seq<ExcludeView> {
    Seq::new(candidates.len(), |i: int| candidates[i]@)
}

/// Why the exclusions could not be computed.
#[derive(Debug, Clone, Copy, PartialEq, Eq, Structural)]
pub enum ExclusionError {
    /// The directory at this position has no canonical form.
    NotCanonical(usize),
}

/// The system directories below which no trash directory is ever made.
pub open spec fn always_excluded_paths() -> Seq<PathView> {
    seq![
        PathView::root().join("bin"@),
        PathView::root().join("boot"@),
        PathView::root().join("dev"@),
        PathView::root().join("lost+found"@),
        PathView::root().join("proc"@),
        PathView::root().join("run"@),
        PathView::root().join("sbin"@),
        PathView::root().join("snap"@),
        PathView::root().join("sys"@),
        PathView::root().join("usr"@),
        PathView::root().join("var"@).join("lib"@).join("docker"@),
    ]
}

/// The canonical paths of the candidates that are directories, in their order.
pub open spec fn canonical_dirs(candidates: Seq<ExcludeView>) -> Seq<PathView>
    decreases candidates.len(),
{
    if candidates.len() == 0 {
        Seq::empty()
    } else {
        let before = canonical_dirs(candidates.drop_last());
        let last = candidates.last();
        if last.is_dir && last.canonical is Some {
            before.push(last.canonical->0)
        } else {
            before
        }
    }
}

/// Whether `at` is the first position of a directory without canonical form.
pub open spec fn is_first_uncanonical(candidates: Seq<ExcludeView>, at: int) -> bool {
    &&& 0 <= at < candidates.len()
    &&& candidates[at].is_dir && candidates[at].canonical is None
    &&& forall|i: int|
        0 <= i < at ==> !(#[trigger] candidates[i].is_dir && candidates[i].canonical is None)
}

/// The system directories below which no trash directory is ever made.
pub fn always_excluded() -> (dirs: Vec<FsPath>)
    ensures
        paths_of(dirs@) == always_excluded_paths(),
{
    let root = FsPath::root();
    let mut dirs: Vec<FsPath> = Vec::new();
    dirs.push(root.join("bin"));
    dirs.push(root.join("boot"));
    dirs.push(root.join("dev"));
    dirs.push(root.join("lost+found"));
    dirs.push(root.join("proc"));
    dirs.push(root.join("run"));
    dirs.push(root.join("sbin"));
    dirs.push(root.join("snap"));
    dirs.push(root.join("sys"));
    dirs.push(root.join("usr"));
    dirs.push(root.join("var").join("lib").join("docker"));
    assert(paths_of(dirs@) =~= always_excluded_paths());
    dirs
}

/// Computes the directories to exclude: the canonical form of each candidate that
/// is a directory, then the system directories that are always excluded. A
/// directory without canonical form is an error; a candidate that is no directory
/// is passed over.
pub fn compute_exclusions(exclude_dirs: &Vec<ExcludeCandidate>) -> (outcome: Result<
    Vec<FsPath>,
    ExclusionError,
>)
    ensures
        match outcome {
            Ok(dirs) => {
                &&& forall|i: int|
                    0 <= i < exclude_dirs.len() ==> !(#[trigger] exclude_dirs[i]@.is_dir
                        && exclude_dirs[i]@.canonical is None)
                &&& paths_of(dirs@) == canonical_dirs(candidates_of(exclude_dirs@))
                    + always_excluded_paths()
            },
            Err(ExclusionError::NotCanonical(at)) => is_first_uncanonical(
                candidates_of(exclude_dirs@),
                at as int,
            ),
        },
{
    let ghost candidates = candidates_of(exclude_dirs@);
    let mut dirs: Vec<FsPath> = Vec::new();
    let mut i: usize = 0;
    while i < exclude_dirs.len()
        invariant
            i <= exclude_dirs.len(),
            candidates == candidates_of(exclude_dirs@),
            forall|k: int|
                0 <= k < i ==> !(#[trigger] exclude_dirs[k]@.is_dir && exclude_dirs[k]@.canonical
                    is None),
            paths_of(dirs@) == canonical_dirs(candidates.take(i as int)),
        decreases exclude_dirs.len() - i,
    {
        assert(candidates.take(i + 1).drop_last() =~= candidates.take(i as int));
        assert(candidates.take(i + 1).last() == exclude_dirs[i as int]@);
        if exclude_dirs[i].is_dir {
            match &exclude_dirs[i].canonical {
                Some(path) => {
                    dirs.push(path.clone());
                    assert(paths_of(dirs@) =~= canonical_dirs(candidates.take(i as int)).push(
                        path@,
                    ));
                },
                None => {
                    assert(candidates[i as int] == exclude_dirs[i as int]@);
                    assert(forall|k: int|
                        0 <= k < i ==> candidates[k] == #[trigger] exclude_dirs[k]@);
                    return Err(ExclusionError::NotCanonical(i));
                },
            }
        }
        i += 1;
    }
    assert(candidates.take(i as int) =~= candidates);
    let ghost kept = paths_of(dirs@);
    let mut always = always_excluded();
    let ghost fixed = paths_of(always@);
    dirs.append(&mut always);
    assert(paths_of(dirs@) =~= kept + fixed);
    Ok(dirs)
}

/// Whether removing `path` is too dangerous: the root, a directory directly below
/// the root, or a directory directly below `/home`.
pub open spec fn is_dangerous(path: PathView) -> bool {
    &&& path.absolute
    &&& path.depth() <= 1 || (path.depth() == 2 && path.components[0] == "home"@)
}

/// Checks whether a path is too dangerous to remove.
pub fn is_dangerous_path(path: &FsPath) -> (dangerous: bool)
    ensures
        dangerous == is_dangerous(path@),
{
    if !path.absolute {
        return false;
    }
    if path.components.len() <= 1 {
        return true;
    }
    if path.components.len() > 2 {
        return false;
    }
    let home = String::from_str("home");
    assert(path@.components[0] == path.components@[0]@);
    path.components[0] == home
}

/// Why two paths could not be compared for their file system.
#[derive(Debug, Clone, Copy, PartialEq, Eq, Structural)]
pub enum SameFsError {
    /// The first path has no device identifier.
    FirstHasNoDevice,
    /// The second path has no device identifier.
    SecondHasNoDevice,
}

/// Whether two paths lie on the same file system, by their device identifiers;
/// `None` stands for an identifier that could not be read.
pub fn are_on_same_fs(a: Option<u64>, b: Option<u64>) -> (outcome: Result<bool, SameFsError>)
    ensures
        outcome == match (a, b) {
            (None, _) => Err::<bool, SameFsError>(SameFsError::FirstHasNoDevice),
            (Some(_), None) => Err::<bool, SameFsError>(SameFsError::SecondHasNoDevice),
            (Some(first), Some(second)) => Ok::<bool, SameFsError>(first == second),
        },
{
    match a {
        None => Err(SameFsError::FirstHasNoDevice),
        Some(first) => match b {
            None => Err(SameFsError::SecondHasNoDevice),
            Some(second) => Ok(first == second),
        },
    }
}

/// Whether a trash directory below this mountpoint is listed: the mountpoint is
/// writable and not excluded.
pub open spec fn holds_trash(mount: MountView, exclusions: Seq<PathView>) -> bool {
    is_writable(mount.permissions) && !is_under_any(mount.path, exclusions)
}

/// Whether `dir` is the trash directory of one of the first `upto` of `sources`
/// that holds one.
pub open spec fn is_listed_among(
    dir: PathView,
    sources: Seq<MountView>,
    exclusions: Seq<PathView>,
    upto: int,
) -> bool {
    exists|i: int|
        0 <= i < upto && i < sources.len() && holds_trash(#[trigger] sources[i], exclusions) && dir
            == trash_dir_of(sources[i].path)
}

/// Whether `dir` is the trash directory of one of `sources` that holds one.
pub open spec fn is_listed(dir: PathView, sources: Seq<MountView>, exclusions: Seq<PathView>) -> bool {
    is_listed_among(dir, sources, exclusions, sources.len() as int)
}

/// Puts `dir` at its place among the sorted `dirs`, unless it stands there
/// already.
fn place(dirs: &mut Vec<FsPath>, dir: FsPath)
    requires
        is_sorted(paths_of(old(dirs)@)),
    ensures
        is_sorted(paths_of(final(dirs)@)),
        forall|path: PathView|
            paths_of(final(dirs)@).contains(path) <==> (path == dir@ || paths_of(
                old(dirs)@,
            ).contains(path)),
{
    let ghost before = paths_of(dirs@);
    let mut at: usize = 0;
    while at < dirs.len() && dirs[at].comes_before(&dir)
        invariant
            at <= dirs.len(),
            before == paths_of(dirs@),
            forall|k: int| 0 <= k < at ==> (#[trigger] before[k]).before(dir@),
        decreases dirs.len() - at,
    {
        assert(before[at as int] == dirs[at as int]@);
        at += 1;
    }
    if at < dirs.len() && dirs[at].same_as(&dir) {
        assert(before[at as int] == dir@);
        return ;
    }
    proof {
        // Every directory from here on comes after the new one.
        assert forall|k: int| at <= k < before.len() implies dir@.before(#[trigger] before[k]) by {
            assert(before[at as int] == dirs[at as int]@);
            lemma_path_order(before[at as int], dir@);
            if k > at {
                assert(before[at as int].before(before[k]));
                lemma_path_transitive(dir@, before[at as int], before[k]);
            }
        }
    }
    let ghost placed = dir@;
    dirs.insert(at, dir);
    proof {
        let after = paths_of(dirs@);
        assert(after =~= before.insert(at as int, placed));
        assert forall|i: int, j: int| 0 <= i < j < after.len() implies (#[trigger] after[i]).before(
            #[trigger] after[j],
        ) by {
            let from_i = if i < at { i } else { i - 1 };
            let from_j = if j < at { j } else { j - 1 };
            if i == at {
                assert(after[j] == before[from_j]);
            } else if j == at {
                assert(after[i] == before[from_i]);
            } else {
                assert(after[i] == before[from_i] && after[j] == before[from_j]);
                assert(before[from_i].before(before[from_j]));
            }
        }
        assert forall|path: PathView| after.contains(path) <==> (path == placed || before.contains(
            path,
        )) by {
            if after.contains(path) {
                let k = choose|k: int| 0 <= k < after.len() && after[k] == path;
                if k < at {
                    assert(before[k] == path);
                } else if k > at {
                    assert(before[k - 1] == path);
                }
            }
            if path == placed {
                assert(after[at as int] == path);
            }
            if before.contains(path) {
                let k = choose|k: int| 0 <= k < before.len() && before[k] == path;
                if k < at {
                    assert(after[k] == path);
                } else {
                    assert(after[k + 1] == path);
                }
            }
        }
    }
}

/// Adds the trash directory of `mount` to the sorted `dirs` if the mountpoint
/// holds one.
fn list_one(dirs: &mut Vec<FsPath>, mount: &MountPoint, exclude_dirs: &Vec<FsPath>)
    requires
        is_sorted(paths_of(old(dirs)@)),
    ensures
        is_sorted(paths_of(final(dirs)@)),
        forall|path: PathView|
            paths_of(final(dirs)@).contains(path) <==> (paths_of(old(dirs)@).contains(path) || (
            holds_trash(mount@, paths_of(exclude_dirs@)) && path == trash_dir_of(mount@.path))),
{
    let writable = match &mount.permissions {
        Some(p) => p.writable(),
        None => false,
    };
    if writable && !mount.path.starts_with_any(exclude_dirs) {
        place(dirs, mount.path.join(TRASH_DIR_NAME));
    }
}

/// Lists all trash directories: below each mountpoint, the home directory and the
/// root, unless it is excluded or cannot be written to. The directories come in
/// the order of their paths, and none comes twice.
pub fn list_trash_dirs(
    mountpoints: &Vec<MountPoint>,
    home: &MountPoint,
    root: &MountPoint,
    exclude_dirs: &Vec<FsPath>,
) -> (dirs: Vec<FsPath>)
    ensures
        is_sorted(paths_of(dirs@)),
        paths_of(dirs@).no_duplicates(),
        forall|dir: PathView|
            paths_of(dirs@).contains(dir) <==> is_listed(
                dir,
                mounts_of(mountpoints@).push(home@).push(root@),
                paths_of(exclude_dirs@),
            ),
{
    let ghost sources = mounts_of(mountpoints@).push(home@).push(root@);
    let ghost exclusions = paths_of(exclude_dirs@);
    let mut dirs: Vec<FsPath> = Vec::new();
    let mut i: usize = 0;
    while i < mountpoints.len()
        invariant
            i <= mountpoints.len(),
            sources == mounts_of(mountpoints@).push(home@).push(root@),
            exclusions == paths_of(exclude_dirs@),
            is_sorted(paths_of(dirs@)),
            forall|dir: PathView|
                paths_of(dirs@).contains(dir) <==> is_listed_among(
                    dir,
                    sources,
                    exclusions,
                    i as int,
                ),
        decreases mountpoints.len() - i,
    {
        assert(sources[i as int] == mountpoints[i as int]@);
        let ghost before = paths_of(dirs@);
        list_one(&mut dirs, &mountpoints[i], exclude_dirs);
        proof {
            lemma_one_more_listed(paths_of(dirs@), before, sources, exclusions, i as int);
        }
        i += 1;
    }
    assert(sources[i as int] == home@);
    let ghost before = paths_of(dirs@);
    list_one(&mut dirs, home, exclude_dirs);
    proof {
        lemma_one_more_listed(paths_of(dirs@), before, sources, exclusions, i as int);
    }
    assert(sources[i + 1] == root@);
    let ghost before = paths_of(dirs@);
    list_one(&mut dirs, root, exclude_dirs);
    proof {
        lemma_one_more_listed(paths_of(dirs@), before, sources, exclusions, i + 1);
        assert(sources.len() == i + 2);
        lemma_sorted_paths_differ(paths_of(dirs@));
    }
    dirs
}

/// What is listed of one more source: what was listed before, and the trash
/// directory of that source where it holds one.
proof fn lemma_one_more_listed(
    after: Seq<PathView>,
    before: Seq<PathView>,
    sources: Seq<MountView>,
    exclusions: Seq<PathView>,
    at: int,
)
    requires
        0 <= at < sources.len(),
        forall|dir: PathView|
            before.contains(dir) <==> is_listed_among(dir, sources, exclusions, at),
        forall|dir: PathView|
            after.contains(dir) <==> (before.contains(dir) || (holds_trash(
                sources[at],
                exclusions,
            ) && dir == trash_dir_of(sources[at].path))),
    ensures
        forall|dir: PathView|
            after.contains(dir) <==> is_listed_among(dir, sources, exclusions, at + 1),
{
    assert forall|dir: PathView| after.contains(dir) <==> is_listed_among(
        dir,
        sources,
        exclusions,
        at + 1,
    ) by {
        if is_listed_among(dir, sources, exclusions, at + 1) {
            let i = choose|i: int|
                0 <= i < at + 1 && i < sources.len() && holds_trash(
                    #[trigger] sources[i],
                    exclusions,
                ) && dir == trash_dir_of(sources[i].path);
            if i < at {
                assert(is_listed_among(dir, sources, exclusions, at));
            }
        }
        if before.contains(dir) {
            assert(is_listed_among(dir, sources, exclusions, at));
            let i = choose|i: int|
                0 <= i < at && i < sources.len() && holds_trash(#[trigger] sources[i], exclusions)
                    && dir == trash_dir_of(sources[i].path);
            assert(holds_trash(sources[i], exclusions));
        }
        if holds_trash(sources[at], exclusions) && dir == trash_dir_of(sources[at].path) {
            assert(holds_trash(sources[at], exclusions));
        }
    }
}

} // verus!
