//! What each command decides, from what the caller found on the file system.

use crate::args::{DropItem, GetItemPath, ListTrashItems, MoveToTrash, RestoreItem};
use crate::catalog::{
    expect_single_trash_item, is_single_found, trashed_of, LookupError, TrashedItem, TrashedView,
};
use crate::fuzzy::FuzzyFinderItem;
use crate::items::id_text;
use crate::mounts::{is_dangerous, is_dangerous_path};
use crate::order::{comes_before, in_stable_order, is_stable_order, stable_order};
use crate::paths::{paths_of, FsPath, PathView};
use crate::text::{chars_of, contains, contains_text};
use crate::transfer::{
    restore_target, ActionView, FsAction, Transfer, TransferError, TransferRules, TransferView,
};
use vstd::prelude::*;
use vstd::string::StringExecFns;

verus! {

/// The text of an optional string.
pub open spec fn text_of(text: Option<String>) -> Option<Seq<char>> {
    match text {
        Some(s) => Some(s@),
        None => None,
    }
}

/// The items that are listed under the filter `name`: all of them without a
/// filter, and with one those whose file name holds the text, in their order.
pub open spec fn listed_under(items: Seq<TrashedView>, name: Option<Seq<char>>) -> Seq<TrashedView>
    decreases items.len(),
{
    if items.len() == 0 {
        Seq::empty()
    } else {
        let before = listed_under(items.drop_last(), name);
        let shown = match name {
            Some(text) => contains_text(items.last().data.filename, text),
            None => true,
        };
        if shown {
            before.push(items.last())
        } else {
            before
        }
    }
}

/// The items to show for the listing command.
pub fn list(action: &ListTrashItems, items: &Vec<TrashedItem>) -> (shown: Vec<TrashedItem>)
    ensures
        trashed_of(shown@) == listed_under(trashed_of(items@), text_of(action.name)),
{
    let ghost all = trashed_of(items@);
    let ghost name = text_of(action.name);
    let filter: Option<Vec<char>> = match &action.name {
        Some(text) => Some(chars_of(text.as_str())),
        None => None,
    };
    let mut shown: Vec<TrashedItem> = Vec::new();
    let mut i: usize = 0;
    while i < items.len()
        invariant
            i <= items.len(),
            all == trashed_of(items@),
            name == text_of(action.name),
            match filter {
                Some(text) => name == Some(text@),
                None => name is None,
            },
            trashed_of(shown@) == listed_under(all.take(i as int), name),
        decreases items.len() - i,
    {
        assert(all.take(i + 1).drop_last() =~= all.take(i as int));
        assert(all.take(i + 1).last() == items[i as int]@);
        let keep = match &filter {
            Some(text) => {
                let filename = chars_of(items[i].data.filename.as_str());
                contains(&filename, text)
            },
            None => true,
        };
        if keep {
            let ghost before = trashed_of(shown@);
            shown.push(items[i].clone());
            assert(trashed_of(shown@) =~= before.push(items[i as int]@));
        }
        i += 1;
    }
    assert(all.take(i as int) =~= all);
    shown
}

/// The last component of a path, as the caller found it.
#[derive(Debug, Clone, PartialEq, Eq)]
pub enum FileName {
    /// The path has no file name.
    Missing,
    /// The file name, which is valid UTF-8.
    Utf8(String),
    /// A lossy rendering of the file name, which is not valid UTF-8.
    Lossy(String),
}

/// What the caller found at a path that is to be removed.
#[derive(Debug, Clone, PartialEq, Eq)]
pub struct PathFacts {
    /// Whether something exists at the path.
    pub exists: bool,
    /// Whether it is a file, and no directory.
    pub is_file: bool,
    /// The file name of the path.
    pub file_name: FileName,
}

/// What is done with a path that is to be removed.
#[derive(Debug, Clone, PartialEq, Eq)]
pub enum Removal {
    /// Nothing: the path does not exist and missing items are passed over.
    Skip,
    /// The item is deleted for good, with all that it holds where it is a
    /// directory.
    DeletePermanently { recursive: bool },
    /// The item is moved to the trash under this file name.
    Trash { filename: String },
}

/// Why a path is not removed. Any of these ends the whole batch.
#[derive(Debug, Clone, Copy, PartialEq, Eq, Structural)]
pub enum RemoveError {
    /// Removing the path is too dangerous.
    Dangerous,
    /// Nothing exists at the path.
    NotFound,
    /// The path has no file name.
    NoFileName,
    /// The file name is not valid UTF-8 and lossy names were not allowed.
    InvalidUtf8,
}

/// The mathematical model of a removal.
pub enum RemovalView {
    Skip,
    DeletePermanently { recursive: bool },
    Trash { filename: Seq<char> },
}

impl View for Removal {
    type V = RemovalView;

    open spec fn view(&self) -> RemovalView {
        match self {
            Removal::Skip => RemovalView::Skip,
            Removal::DeletePermanently { recursive } => RemovalView::DeletePermanently {
                recursive: *recursive,
            },
            Removal::Trash { filename } => RemovalView::Trash { filename: filename@ },
        }
    }
}

/// What is to be done with one path of the removal command.
///
/// A dangerous path is refused before anything else. A path at which nothing
/// exists is passed over where that was asked for, and is an error otherwise. With
/// `permanently` the item is deleted. Otherwise it is trashed under its file name,
/// which must exist and be valid UTF-8, unless lossy names are allowed.
pub open spec fn removal_of(
    path: PathView,
    exists: bool,
    is_file: bool,
    file_name: FileName,
    permanently: bool,
    ignore: bool,
    allow_lossy: bool,
) -> Result<RemovalView, RemoveError> {
    if is_dangerous(path) {
        Err(RemoveError::Dangerous)
    } else if !exists {
        if ignore {
            Ok(RemovalView::Skip)
        } else {
            Err(RemoveError::NotFound)
        }
    } else if permanently {
        Ok(RemovalView::DeletePermanently { recursive: !is_file })
    } else {
        match file_name {
            FileName::Missing => Err(RemoveError::NoFileName),
            FileName::Utf8(name) => Ok(RemovalView::Trash { filename: name@ }),
            FileName::Lossy(name) => if allow_lossy {
                Ok(RemovalView::Trash { filename: name@ })
            } else {
                Err(RemoveError::InvalidUtf8)
            },
        }
    }
}

/// Decides what is done with one path of the removal command.
pub fn remove(action: &MoveToTrash, path: &FsPath, facts: &PathFacts) -> (decision: Result<
    Removal,
    RemoveError,
>)
    ensures
        match decision {
            Ok(removal) => Ok::<RemovalView, RemoveError>(removal@),
            Err(reason) => Err::<RemovalView, RemoveError>(reason),
        } == removal_of(
            path@,
            facts.exists,
            facts.is_file,
            facts.file_name,
            action.permanently,
            action.ignore,
            action.allow_invalid_utf8_item_names,
        ),
{
    if is_dangerous_path(path) {
        return Err(RemoveError::Dangerous);
    }
    if !facts.exists {
        if action.ignore {
            return Ok(Removal::Skip);
        }
        return Err(RemoveError::NotFound);
    }
    if action.permanently {
        return Ok(Removal::DeletePermanently { recursive: !facts.is_file });
    }
    match &facts.file_name {
        FileName::Missing => Err(RemoveError::NoFileName),
        FileName::Utf8(name) => Ok(Removal::Trash { filename: name.clone() }),
        FileName::Lossy(name) => if action.allow_invalid_utf8_item_names {
            Ok(Removal::Trash { filename: name.clone() })
        } else {
            Err(RemoveError::InvalidUtf8)
        },
    }
}

/// The path of the item that the command names, inside its trash directory.
pub fn path_of(action: &GetItemPath, items: &Vec<TrashedItem>) -> (outcome: Result<
    FsPath,
    LookupError,
>)
    ensures
        match outcome {
            Ok(path) => exists|item: TrashedItem|
                #[trigger] is_single_found(
                    Ok(item),
                    trashed_of(items@),
                    action.filename@,
                    text_of(action.id),
                ) && path@ == item@.complete_path(),
            Err(reason) => is_single_found(
                Err(reason),
                trashed_of(items@),
                action.filename@,
                text_of(action.id),
            ),
        },
{
    let id: Option<&str> = match &action.id {
        Some(text) => Some(text.as_str()),
        None => None,
    };
    match expect_single_trash_item(action.filename.as_str(), id, items) {
        Ok(item) => Ok(item.complete_trash_item_path()),
        Err(reason) => Err(reason),
    }
}

/// The step that deletes for good the item that the command names: the removal of
/// its path inside the trash directory, with all that it holds.
pub fn drop(action: &DropItem, items: &Vec<TrashedItem>) -> (outcome: Result<FsAction, LookupError>)
    ensures
        match outcome {
            Ok(step) => exists|item: TrashedItem|
                #[trigger] is_single_found(
                    Ok(item),
                    trashed_of(items@),
                    action.filename@,
                    text_of(action.id),
                ) && step@ == ActionView::RemoveTree(item@.complete_path()),
            Err(reason) => is_single_found(
                Err(reason),
                trashed_of(items@),
                action.filename@,
                text_of(action.id),
            ),
        },
{
    let id: Option<&str> = match &action.id {
        Some(text) => Some(text.as_str()),
        None => None,
    };
    match expect_single_trash_item(action.filename.as_str(), id, items) {
        Ok(item) => Ok(FsAction::RemoveTree(item.complete_trash_item_path())),
        Err(reason) => Err(reason),
    }
}

/// Where the restore command puts the item, before it is known whether that is a
/// directory: the current directory by default, the path given where it is
/// absolute, and that path taken from the current directory where it is relative.
pub open spec fn restore_destination_of(to: Option<PathView>, current_dir: PathView) -> PathView {
    match to {
        Some(path) => current_dir.join_path(path),
        None => current_dir,
    }
}

/// Where the restore command puts the item, before it is known whether that is a
/// directory.
pub fn restore_destination(action: &RestoreItem, current_dir: &FsPath) -> (destination: FsPath)
    ensures
        destination@ == restore_destination_of(
            match action.to {
                Some(path) => Some(path@),
                None => None,
            },
            current_dir@,
        ),
{
    match &action.to {
        Some(path) => current_dir.join_path(path),
        None => current_dir.clone(),
    }
}

/// Why a restore does not start.
#[derive(Debug, Clone, PartialEq, Eq)]
pub enum RestoreError {
    /// The command names no item: one has to be chosen first.
    NoFilename,
    /// The item was not found.
    Lookup(LookupError),
    /// The transfer cannot be set up.
    Transfer(TransferError),
}

/// The rules of the restore that the command asks for.
pub open spec fn restore_rules(action: RestoreItem) -> TransferRules {
    TransferRules {
        staged: false,
        overwrite: action.force,
        allow_cross_device: action.move_ext_filesystems,
        size_limit: None,
    }
}

/// Starts the restore of the item that the command names. `destination` is where
/// the command puts the item, and `destination_is_dir` tells whether that is an
/// existing directory: the item then goes below it, under its file name.
pub fn restore(
    action: &RestoreItem,
    items: &Vec<TrashedItem>,
    destination: &FsPath,
    destination_is_dir: bool,
) -> (outcome: Result<Transfer, RestoreError>)
    ensures
        match action.filename {
            None => outcome matches Err(RestoreError::NoFilename),
            Some(filename) => match outcome {
                Err(RestoreError::NoFilename) => false,
                Err(RestoreError::Lookup(reason)) => is_single_found(
                    Err(reason),
                    trashed_of(items@),
                    filename@,
                    text_of(action.id),
                ),
                Err(RestoreError::Transfer(reason)) => reason == TransferError::MissingParent
                    && exists|item: TrashedItem|
                    #[trigger] is_single_found(
                        Ok(item),
                        trashed_of(items@),
                        filename@,
                        text_of(action.id),
                    ) && restore_target(
                        destination@,
                        destination_is_dir,
                        item@.data.filename,
                    ).parent() is None,
                Ok(transfer) => exists|item: TrashedItem|
                    #[trigger] is_single_found(
                        Ok(item),
                        trashed_of(items@),
                        filename@,
                        text_of(action.id),
                    ) && ({
                        let target = restore_target(
                            destination@,
                            destination_is_dir,
                            item@.data.filename,
                        );
                        target.parent() matches Some(parent) && transfer@
                            == TransferView::out_of_trash(
                            item@,
                            target,
                            parent,
                            restore_rules(*action),
                        )
                    }),
            },
        },
{
    let filename = match &action.filename {
        Some(filename) => filename,
        None => {
            return Err(RestoreError::NoFilename);
        },
    };
    let id: Option<&str> = match &action.id {
        Some(text) => Some(text.as_str()),
        None => None,
    };
    let item = match expect_single_trash_item(filename.as_str(), id, items) {
        Ok(item) => item,
        Err(reason) => {
            return Err(RestoreError::Lookup(reason));
        },
    };
    let rules = TransferRules {
        staged: false,
        overwrite: action.force,
        allow_cross_device: action.move_ext_filesystems,
        size_limit: None,
    };
    match Transfer::out_of_trash(&item, destination, destination_is_dir, rules) {
        Ok(transfer) => Ok(transfer),
        Err(reason) => Err(RestoreError::Transfer(reason)),
    }
}

/// Whether `c` is white space, as Unicode defines it.
pub open spec fn is_white_space(c: char) -> bool {
    let code = c as u32;
    ||| 0x09 <= code <= 0x0D
    ||| code == 0x20
    ||| code == 0x85
    ||| code == 0xA0
    ||| code == 0x1680
    ||| 0x2000 <= code <= 0x200A
    ||| code == 0x2028
    ||| code == 0x2029
    ||| code == 0x202F
    ||| code == 0x205F
    ||| code == 0x3000
}

/// Whether the answer to the question before the trash is emptied is a yes: the
/// letter `y`, small or capital, with nothing but white space around it.
pub open spec fn is_yes(answer: Seq<char>) -> bool {
    exists|at: int|
        #![trigger answer[at]]
        {
            &&& 0 <= at < answer.len()
            &&& answer[at] == 'y' || answer[at] == 'Y'
            &&& forall|i: int| 0 <= i < answer.len() && i != at ==> is_white_space(#[trigger] answer[i])
        }
}

/// Tests whether `c` is white space.
fn is_space(c: char) -> (yes: bool)
    ensures
        yes == is_white_space(c),
{
    let code = c as u32;
    (0x09 <= code && code <= 0x0D) || code == 0x20 || code == 0x85 || code == 0xA0 || code
        == 0x1680 || (0x2000 <= code && code <= 0x200A) || code == 0x2028 || code == 0x2029
        || code == 0x202F || code == 0x205F || code == 0x3000
}

/// Tests whether the answer to the question before the trash is emptied is a yes.
pub fn confirmation_accepted(answer: &str) -> (yes: bool)
    ensures
        yes == is_yes(answer@),
{
    let text = chars_of(answer);
    let mut letter: Option<usize> = None;
    let mut i: usize = 0;
    while i < text.len()
        invariant
            i <= text.len(),
            text@ == answer@,
            match letter {
                Some(at) => at < i && (text@[at as int] == 'y' || text@[at as int] == 'Y')
                    && forall|k: int|
                    0 <= k < i && k != at ==> is_white_space(#[trigger] text@[k]),
                None => forall|k: int| 0 <= k < i ==> is_white_space(#[trigger] text@[k]),
            },
        decreases text.len() - i,
    {
        let c = text[i];
        if !is_space(c) {
            if letter.is_some() || !(c == 'y' || c == 'Y') {
                assert(!is_yes(answer@)) by {
                    assert(!is_white_space(text@[i as int]));
                    if is_yes(answer@) {
                        let at = choose|at: int|
                            #![trigger answer@[at]]
                            {
                                &&& 0 <= at < answer@.len()
                                &&& answer@[at] == 'y' || answer@[at] == 'Y'
                                &&& forall|k: int|
                                    0 <= k < answer@.len() && k != at ==> is_white_space(
                                        #[trigger] answer@[k],
                                    )
                            };
                        if at != i {
                            assert(is_white_space(answer@[i as int]));
                        } else {
                            assert(is_white_space(answer@[letter->0 as int]));
                        }
                    }
                }
                return false;
            }
            letter = Some(i);
        }
        i += 1;
    }
    match letter {
        Some(at) => {
            assert(answer@[at as int] == 'y' || answer@[at as int] == 'Y');
            true
        },
        None => {
            assert(!is_yes(answer@)) by {
                if is_yes(answer@) {
                    let at = choose|at: int|
                        #![trigger answer@[at]]
                        {
                            &&& 0 <= at < answer@.len()
                            &&& answer@[at] == 'y' || answer@[at] == 'Y'
                            &&& forall|k: int|
                                0 <= k < answer@.len() && k != at ==> is_white_space(
                                    #[trigger] answer@[k],
                                )
                        };
                    assert(is_white_space(answer@[at]));
                }
            }
            false
        },
    }
}

/// The number of items that lie in the trash directory `trash_dir`.
pub open spec fn count_in(items: Seq<TrashedView>, trash_dir: PathView) -> nat
    decreases items.len(),
{
    if items.len() == 0 {
        0
    } else {
        count_in(items.drop_last(), trash_dir) + if items.last().trash_dir == trash_dir {
            1nat
        } else {
            0nat
        }
    }
}

/// Counts the items that lie in the trash directory `trash_dir`.
pub fn count_in_trash_dir(items: &Vec<TrashedItem>, trash_dir: &FsPath) -> (count: usize)
    ensures
        count == count_in(trashed_of(items@), trash_dir@),
{
    let ghost all = trashed_of(items@);
    let mut count: usize = 0;
    let mut i: usize = 0;
    while i < items.len()
        invariant
            i <= items.len(),
            all == trashed_of(items@),
            count <= i,
            count == count_in(all.take(i as int), trash_dir@),
        decreases items.len() - i,
    {
        assert(all.take(i + 1).drop_last() =~= all.take(i as int));
        assert(all.take(i + 1).last() == items[i as int]@);
        if items[i].trash_dir.same_as(trash_dir) {
            count += 1;
        }
        i += 1;
    }
    assert(all.take(i as int) =~= all);
    count
}

/// Whether the progress is shown after the entry at position `done` of `total`
/// has been dealt with: at every twenty-fifth entry, and at the last.
pub fn reports_progress(done: usize, total: usize) -> (shown: bool)
    ensures
        shown == (done % 25 == 0 || done + 1 == total),
{
    done % 25 == 0 || (done < total && total - done == 1)
}

/// The keys by which entries are put in the order of their removal: the deeper an
/// entry lies, the smaller its key.
pub open spec fn depth_keys(entries: Seq<PathView>) -> Seq<i128> {
    Seq::new(entries.len(), |i: int| (-entries[i].depth()) as i128)
}

/// The entries with the deepest first, entries of the same depth in the order in
/// which they stand.
pub open spec fn deepest_first(entries: Seq<PathView>) -> Seq<PathView> {
    in_stable_order(entries, depth_keys(entries))
}

/// Puts the entries that a walk through a trash directory found in the order in
/// which they can be removed one by one: every entry comes before the directories
/// above it.
pub fn list_trash_items_recursively(entries: &Vec<FsPath>) -> (ordered: Vec<FsPath>)
    ensures
        paths_of(ordered@) == deepest_first(paths_of(entries@)),
        forall|i: int, j: int|
            0 <= i < ordered.len() && 0 <= j < ordered.len() && (#[trigger] ordered[i])@.is_strictly_below(
                (#[trigger] ordered[j])@,
            ) ==> i < j,
{
    let ghost found = paths_of(entries@);
    let mut keys: Vec<i128> = Vec::new();
    let mut i: usize = 0;
    while i < entries.len()
        invariant
            i <= entries.len(),
            found == paths_of(entries@),
            keys@ == depth_keys(found).take(i as int),
        decreases entries.len() - i,
    {
        let depth = entries[i].depth();
        keys.push(-(depth as i128));
        assert(keys@ =~= depth_keys(found).take(i + 1));
        i += 1;
    }
    assert(depth_keys(found).take(i as int) =~= depth_keys(found));
    let order = stable_order(&keys);
    let mut ordered: Vec<FsPath> = Vec::new();
    let mut k: usize = 0;
    while k < order.len()
        invariant
            k <= order.len(),
            order.len() == entries.len(),
            is_stable_order(order@, keys@),
            ordered.len() == k,
            forall|j: int| 0 <= j < k ==> (#[trigger] ordered[j])@ == entries[order[j] as int]@,
        decreases order.len() - k,
    {
        assert(order@[k as int] < entries.len());
        ordered.push(entries[order[k]].clone());
        k += 1;
    }
    assert(paths_of(ordered@) =~= deepest_first(found));
    assert forall|i: int, j: int|
        0 <= i < ordered.len() && 0 <= j < ordered.len() && (#[trigger] ordered[i])@.is_strictly_below(
            (#[trigger] ordered[j])@,
        ) implies i < j by {
        let a = order@[i] as int;
        let b = order@[j] as int;
        assert(ordered[i]@ == found[a] && ordered[j]@ == found[b]);
        assert(found[a].depth() == entries@[a].components.len());
        assert(found[b].depth() == entries@[b].components.len());
        assert(keys@[a] == -found[a].depth() && keys@[b] == -found[b].depth());
        assert(keys@[a] < keys@[b]);
        if j < i {
            assert(comes_before(keys@, b, a));
        }
    }
    ordered
}

/// A trash directory and all that a walk through it found, at any depth.
#[derive(Debug, Clone, PartialEq, Eq)]
pub struct TrashDirTree {
    pub trash_dir: FsPath,
    pub entries: Vec<FsPath>,
}

/// The models of a list of trash directories with their entries.
pub open spec fn trees_of(trees: Seq<TrashDirTree>) -> Seq<(PathView, Seq<PathView>)> {
    Seq::new(trees.len(), |i: int| (trees[i].trash_dir@, paths_of(trees[i].entries@)))
}

/// The removal of each entry, in the order given.
pub open spec fn removals_of(entries: Seq<PathView>) -> Seq<ActionView> {
    Seq::new(entries.len(), |i: int| ActionView::RemoveEntry(entries[i]))
}

/// The steps that empty the trash: for each trash directory in turn, the removal
/// of every entry, deepest first, and then the making of the directory itself
/// should it be missing, so that it is there and empty afterwards.
pub open spec fn emptying_steps(trees: Seq<(PathView, Seq<PathView>)>) -> Seq<ActionView>
    decreases trees.len(),
{
    if trees.len() == 0 {
        Seq::empty()
    } else {
        emptying_steps(trees.drop_last()) + removals_of(deepest_first(trees.last().1)).push(
            ActionView::CreateDirIfMissing(trees.last().0),
        )
    }
}

/// The models of a list of steps.
pub open spec fn steps_of(steps: Seq<FsAction>) -> Seq<ActionView> {
    Seq::new(steps.len(), |i: int| steps[i]@)
}

/// Why the trash is not emptied.
#[derive(Debug, Clone, Copy, PartialEq, Eq, Structural)]
pub enum EmptyError {
    /// The answer to the question was not a yes.
    ConfirmationDeclined,
}

/// The steps that empty the trash, given the answer to the question whether to go
/// on and, for each trash directory, what a walk through it found. Without a yes
/// nothing is removed.
pub fn empty(answer: &str, trees: &Vec<TrashDirTree>) -> (outcome: Result<Vec<FsAction>, EmptyError>)
    ensures
        match outcome {
            Ok(steps) => is_yes(answer@) && steps_of(steps@) == emptying_steps(trees_of(trees@)),
            Err(reason) => !is_yes(answer@) && reason == EmptyError::ConfirmationDeclined,
        },
{
    if !confirmation_accepted(answer) {
        return Err(EmptyError::ConfirmationDeclined);
    }
    let ghost all = trees_of(trees@);
    let mut steps: Vec<FsAction> = Vec::new();
    let mut t: usize = 0;
    while t < trees.len()
        invariant
            t <= trees.len(),
            all == trees_of(trees@),
            steps_of(steps@) == emptying_steps(all.take(t as int)),
        decreases trees.len() - t,
    {
        assert(all.take(t + 1).drop_last() =~= all.take(t as int));
        assert(all.take(t + 1).last() == all[t as int]);
        let ghost before = steps_of(steps@);
        let ordered = list_trash_items_recursively(&trees[t].entries);
        let ghost removed = paths_of(ordered@);
        let mut k: usize = 0;
        while k < ordered.len()
            invariant
                k <= ordered.len(),
                removed == paths_of(ordered@),
                steps_of(steps@) == before + removals_of(removed).take(k as int),
            decreases ordered.len() - k,
        {
            let ghost so_far = steps_of(steps@);
            let step = FsAction::RemoveEntry(ordered[k].clone());
            assert(step@ == removals_of(removed)[k as int]);
            steps.push(step);
            assert(steps_of(steps@) =~= so_far.push(removals_of(removed)[k as int]));
            assert(steps_of(steps@) =~= before + removals_of(removed).take(k + 1));
            k += 1;
        }
        assert(removals_of(removed).take(k as int) =~= removals_of(removed));
        let ghost so_far = steps_of(steps@);
        let last = FsAction::CreateDirIfMissing(trees[t].trash_dir.clone());
        steps.push(last);
        assert(steps_of(steps@) =~= so_far.push(ActionView::CreateDirIfMissing(all[t as int].0)));
        assert(steps_of(steps@) =~= before + removals_of(removed).push(
            ActionView::CreateDirIfMissing(all[t as int].0),
        ));
        t += 1;
    }
    assert(all.take(t as int) =~= all);
    Ok(steps)
}

/// The date shown for the item at position `at`: the text given for it, or a
/// note that there is none.
pub open spec fn date_shown(dates: Seq<Option<String>>, at: int) -> Seq<char> {
    if 0 <= at < dates.len() && dates[at] is Some {
        dates[at]->0@
    } else {
        "<Failed to format date>"@
    }
}

/// What the list shows for an item: the date of its deletion in brackets, and its
/// file name.
pub open spec fn finder_label(date: Seq<char>, filename: Seq<char>) -> Seq<char> {
    "["@ + date + "] "@ + filename
}

/// The list from which the item to restore is chosen where the command names
/// none: one entry for each item, in the order given. `dates` holds for each item
/// the date of its deletion as text, `None` where it could not be written.
pub fn restore_with_ui(items: &Vec<TrashedItem>, dates: &Vec<Option<String>>) -> (list: Vec<
    FuzzyFinderItem<TrashedItem>,
>)
    ensures
        list.len() == items.len(),
        forall|i: int|
            0 <= i < list.len() ==> (#[trigger] list[i]).value@ == items[i]@ && list[i].display@
                == finder_label(date_shown(dates@, i), items[i]@.data.filename),
{
    let mut list: Vec<FuzzyFinderItem<TrashedItem>> = Vec::new();
    let mut i: usize = 0;
    while i < items.len()
        invariant
            i <= items.len(),
            list.len() == i,
            forall|k: int|
                0 <= k < i ==> (#[trigger] list[k]).value@ == items[k]@ && list[k].display@
                    == finder_label(date_shown(dates@, k), items[k]@.data.filename),
        decreases items.len() - i,
    {
        let mut display = String::from_str("[");
        let dated = i < dates.len() && dates[i].is_some();
        if dated {
            match &dates[i] {
                Some(date) => display.append(date.as_str()),
                None => {},
            }
        } else {
            display.append("<Failed to format date>");
        }
        display.append("] ");
        display.append(items[i].data.filename.as_str());
        assert(display@ =~= finder_label(date_shown(dates@, i as int), items[i as int]@.data.filename));
        list.push(FuzzyFinderItem { value: items[i].clone(), display });
        i += 1;
    }
    list
}

/// The restore command for an item that was chosen from the list: the item by its
/// file name and identifier, with the destination and the options of the command
/// that had the list shown.
pub fn chosen_restore(action: &RestoreItem, item: &TrashedItem) -> (chosen: RestoreItem)
    ensures
        text_of(chosen.filename) == Some(item@.data.filename),
        text_of(chosen.id) == Some(id_text(item@.data.deleted_at)),
        match (chosen.to, action.to) {
            (Some(mine), Some(given)) => mine@ == given@,
            (None, None) => true,
            _ => false,
        },
        chosen.move_ext_filesystems == action.move_ext_filesystems,
        chosen.force == action.force,
{
    RestoreItem {
        filename: Some(item.data.filename.clone()),
        to: match &action.to {
            Some(path) => Some(path.clone()),
            None => None,
        },
        id: Some(item.data.compute_id()),
        move_ext_filesystems: action.move_ext_filesystems,
        force: action.force,
    }
}

/// What came of one path of the removal command.
#[derive(Debug, Clone, Copy, PartialEq, Eq, Structural)]
pub enum PathOutcome {
    /// The path was passed over: nothing exists there, and missing items are
    /// ignored.
    PassedOver,
    /// The item was trashed or deleted.
    Removed,
    /// The path was refused, or a step on the file system failed.
    Failed,
}

/// How the removal command goes on after a path.
#[derive(Debug, Clone, Copy, PartialEq, Eq, Structural)]
pub enum BatchStep {
    /// The path at this position is next.
    Next(usize),
    /// Every path has been dealt with.
    Done,
    /// The command ends here; what was removed before stays removed.
    Aborted,
}

/// How the removal command goes on after the path at position `at` of `paths`:
/// a failure ends it, and after a path that was removed or passed over the next
/// path follows, if there is one.
pub open spec fn batch_step(at: usize, paths: usize, outcome: PathOutcome) -> BatchStep {
    if outcome == PathOutcome::Failed {
        BatchStep::Aborted
    } else if at + 1 < paths {
        BatchStep::Next((at + 1) as usize)
    } else {
        BatchStep::Done
    }
}

/// Decides how the removal command goes on after the path at position `at` of
/// `paths`.
pub fn after_path(at: usize, paths: usize, outcome: PathOutcome) -> (step: BatchStep)
    ensures
        step == batch_step(at, paths, outcome),
{
    match outcome {
        PathOutcome::Failed => BatchStep::Aborted,
        _ => if at < paths && paths - at > 1 {
            BatchStep::Next(at + 1)
        } else {
            BatchStep::Done
        },
    }
}

/// The number of paths that the removal command deals with, from the path at
/// position `at` on, where `outcomes` tells how each path fares: it goes from path
/// to path as `batch_step` says.
pub open spec fn paths_dealt_with(outcomes: Seq<PathOutcome>, at: usize) -> nat
    decreases outcomes.len() - at,
{
    if at >= outcomes.len() {
        0
    } else {
        match batch_step(at, outcomes.len() as usize, outcomes[at as int]) {
            BatchStep::Next(next) => 1 + paths_dealt_with(outcomes, next),
            _ => 1,
        }
    }
}

/// The removal command never goes past a failure: the paths that it deals with
/// before the last one were all removed or passed over, and where it leaves paths
/// untouched, the last path that it dealt with failed.
pub proof fn lemma_batch_stops_at_first_failure(outcomes: Seq<PathOutcome>, at: usize)
    requires
        outcomes.len() <= usize::MAX,
    ensures
        at + paths_dealt_with(outcomes, at) <= outcomes.len() || paths_dealt_with(outcomes, at)
            == 0,
        forall|i: int|
            at <= i < at + paths_dealt_with(outcomes, at) - 1 ==> (#[trigger] outcomes[i])
                != PathOutcome::Failed,
        at < outcomes.len() && at + paths_dealt_with(outcomes, at) < outcomes.len()
            ==> outcomes[at + paths_dealt_with(outcomes, at) - 1] == PathOutcome::Failed,
    decreases outcomes.len() - at,
{
    if at < outcomes.len() {
        match batch_step(at, outcomes.len() as usize, outcomes[at as int]) {
            BatchStep::Next(next) => {
                lemma_batch_stops_at_first_failure(outcomes, next);
            },
            _ => {},
        }
    }
}

} // verus!
