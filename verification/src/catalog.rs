//! The catalog of the trash: what the entries of the trash directories name, all
//! items in the order of their deletion, and the search for one item by its file
//! name and identifier.

use crate::base64url::codec_faithful;
use crate::ident::id_bytes;
use crate::items::{
    decode_name, encoded_name, id_text, lemma_identifiers_differ, ItemView,
    TrashItemDecodingError, TrashItemInfos,
};
use crate::order::{in_stable_order, is_stable_order, stable_order, the_stable_order};
use crate::paths::{FsPath, PathView, TRASH_TRANSFER_DIRNAME};
use vstd::prelude::*;
use vstd::string::StringExecFns;

verus! {

/// The mathematical model of an item in a trash directory.
#[verifier::ext_equal]
pub struct TrashedView {
    pub data: ItemView,
    pub trash_dir: PathView,
}

/// A trashed item together with the trash directory that holds it.
#[derive(Debug, PartialEq, Eq)]
pub struct TrashedItem {
    /// What identifies the item.
    pub data: TrashItemInfos,
    /// The trash directory in which the item lies.
    pub trash_dir: FsPath,
}

impl View for TrashedItem {
    type V = TrashedView;

    open spec fn view(&self) -> TrashedView {
        TrashedView { data: self.data@, trash_dir: self.trash_dir@ }
    }
}

impl Clone for TrashedItem {
    fn clone(&self) -> (copy: Self)
        ensures
            copy@ == self@,
    {
        TrashedItem { data: self.data.clone(), trash_dir: self.trash_dir.clone() }
    }
}

impl TrashedView {
    /// Where the item lies while it is being moved into the trash.
    pub open spec fn transfer_path(self) -> PathView {
        self.trash_dir.join(TRASH_TRANSFER_DIRNAME@).join(encoded_name(self.data))
    }

    /// Where the item lies once it is in the trash.
    pub open spec fn complete_path(self) -> PathView {
        self.trash_dir.join(encoded_name(self.data))
    }
}

impl TrashedItem {
    /// The path of the item in the transfer directory of its trash directory,
    /// where it lies while it is being moved.
    pub fn transfer_trash_item_path(&self) -> (path: FsPath)
        ensures
            path@ == self@.transfer_path(),
    {
        let name = self.data.trash_filename();
        self.trash_dir.join(TRASH_TRANSFER_DIRNAME).join(name.as_str())
    }

    /// The path of the item in its trash directory, once it is fully moved.
    pub fn complete_trash_item_path(&self) -> (path: FsPath)
        ensures
            path@ == self@.complete_path(),
    {
        let name = self.data.trash_filename();
        self.trash_dir.join(name.as_str())
    }
}

/// The models of a list of trashed items.
pub open spec fn trashed_of(items: Seq<TrashedItem>) -> Seq<TrashedView> {
    Seq::new(items.len(), |i: int| items[i]@)
}

/// The models of a list of item identities.
pub open spec fn infos_of(items: Seq<TrashItemInfos>) -> Seq<ItemView> {
    Seq::new(items.len(), |i: int| items[i]@)
}

/// Why an entry of a trash directory is not listed.
#[derive(Debug, Clone, Copy, PartialEq, Eq, Structural)]
pub enum SkipReason {
    /// The entry's name is not valid UTF-8.
    InvalidUtf8,
    /// The entry's name is not that of a trashed item.
    NotATrashName(TrashItemDecodingError),
}

/// An entry of a trash directory that is not listed, by its position among the
/// entries.
#[derive(Debug, Clone, Copy, PartialEq, Eq, Structural)]
pub struct SkippedEntry {
    pub entry: usize,
    pub reason: SkipReason,
}

/// What a trash directory holds: the items, and the entries that name none.
#[derive(Debug, Clone, PartialEq, Eq)]
pub struct DirListing {
    pub items: Vec<TrashItemInfos>,
    pub skipped: Vec<SkippedEntry>,
}

/// The entries of one trash directory, as the caller read them.
#[derive(Debug, Clone, PartialEq, Eq)]
pub struct TrashDirEntries {
    /// The trash directory.
    pub trash_dir: FsPath,
    /// The names of its entries; `None` stands for a name that is not valid UTF-8.
    pub names: Vec<Option<String>>,
}

/// The texts of a list of entry names.
pub open spec fn entry_names_of(names: Seq<Option<String>>) -> Seq<Option<Seq<char>>> {
    Seq::new(
        names.len(),
        |i: int|
            match names[i] {
                Some(name) => Some(name@),
                None => None,
            },
    )
}

/// Whether the entry names an item, and which.
pub open spec fn entry_item(name: Option<Seq<char>>) -> Option<ItemView> {
    match name {
        None => None,
        Some(text) => if text == TRASH_TRANSFER_DIRNAME@ {
            None
        } else {
            match decode_name(text) {
                Ok(item) => Some(item),
                Err(_) => None,
            }
        },
    }
}

/// Why the entry is reported, if it is: the transfer directory is passed over in
/// silence.
pub open spec fn entry_skip(name: Option<Seq<char>>) -> Option<SkipReason> {
    match name {
        None => Some(SkipReason::InvalidUtf8),
        Some(text) => if text == TRASH_TRANSFER_DIRNAME@ {
            None
        } else {
            match decode_name(text) {
                Ok(_) => None,
                Err(reason) => Some(SkipReason::NotATrashName(reason)),
            }
        },
    }
}

/// The items that the entries name, in the order of the entries.
pub open spec fn listed_items(names: Seq<Option<Seq<char>>>) -> Seq<ItemView>
    decreases names.len(),
{
    if names.len() == 0 {
        Seq::empty()
    } else {
        let before = listed_items(names.drop_last());
        match entry_item(names.last()) {
            Some(item) => before.push(item),
            None => before,
        }
    }
}

/// The entries that are reported, in their order.
pub open spec fn skipped_entries(names: Seq<Option<Seq<char>>>) -> Seq<SkippedEntry>
    decreases names.len(),
{
    if names.len() == 0 {
        Seq::empty()
    } else {
        let before = skipped_entries(names.drop_last());
        match entry_skip(names.last()) {
            Some(reason) => before.push(
                SkippedEntry { entry: (names.len() - 1) as usize, reason },
            ),
            None => before,
        }
    }
}

/// Lists the items of a trash directory from the names of its entries. The
/// transfer directory is no item. An entry whose name is not valid UTF-8, or not
/// the name of a trashed item, is reported and left out: the listing goes on.
pub fn list_trash_items(names: &Vec<Option<String>>) -> (listing: DirListing)
    ensures
        infos_of(listing.items@) == listed_items(entry_names_of(names@)),
        listing.skipped@ == skipped_entries(entry_names_of(names@)),
{
    let ghost entries = entry_names_of(names@);
    let mut items: Vec<TrashItemInfos> = Vec::new();
    let mut skipped: Vec<SkippedEntry> = Vec::new();
    let transfer_dir = String::from_str(TRASH_TRANSFER_DIRNAME);
    let mut i: usize = 0;
    while i < names.len()
        invariant
            i <= names.len(),
            entries == entry_names_of(names@),
            transfer_dir@ == TRASH_TRANSFER_DIRNAME@,
            infos_of(items@) == listed_items(entries.take(i as int)),
            skipped@ == skipped_entries(entries.take(i as int)),
        decreases names.len() - i,
    {
        assert(entries.take(i + 1).drop_last() =~= entries.take(i as int));
        assert(entries.take(i + 1).last() == entries[i as int]);
        let ghost listed = infos_of(items@);
        match &names[i] {
            None => {
                skipped.push(SkippedEntry { entry: i, reason: SkipReason::InvalidUtf8 });
            },
            Some(name) => {
                if *name != transfer_dir {
                    match TrashItemInfos::decode(name.as_str()) {
                        Ok(item) => {
                            items.push(item);
                            assert(infos_of(items@) =~= listed.push(item@));
                        },
                        Err(reason) => {
                            skipped.push(
                                SkippedEntry { entry: i, reason: SkipReason::NotATrashName(reason) },
                            );
                        },
                    }
                }
            },
        }
        assert(infos_of(items@) =~= listed_items(entries.take(i + 1)));
        i += 1;
    }
    assert(entries.take(i as int) =~= entries);
    DirListing { items, skipped }
}

/// The models of a list of directory entries.
pub open spec fn entries_of(roots: Seq<TrashDirEntries>) -> Seq<(PathView, Seq<Option<Seq<char>>>)> {
    Seq::new(roots.len(), |i: int| (roots[i].trash_dir@, entry_names_of(roots[i].names@)))
}

/// The items of one trash directory, each with the directory.
pub open spec fn items_in(trash_dir: PathView, items: Seq<ItemView>) -> Seq<TrashedView> {
    Seq::new(items.len(), |i: int| TrashedView { data: items[i], trash_dir })
}

/// The items of all the trash directories, directory after directory.
pub open spec fn all_listed(roots: Seq<(PathView, Seq<Option<Seq<char>>>)>) -> Seq<TrashedView>
    decreases roots.len(),
{
    if roots.len() == 0 {
        Seq::empty()
    } else {
        all_listed(roots.drop_last()) + items_in(roots.last().0, listed_items(roots.last().1))
    }
}

/// The deletion instants of a list of items.
pub open spec fn instants_of(items: Seq<TrashedView>) -> Seq<i128> {
    Seq::new(items.len(), |i: int| items[i].data.deleted_at as i128)
}

/// The items in the order of their deletion instants, earliest first; items
/// deleted at the same instant stay in the order in which they stand in `items`.
pub open spec fn sorted_by_instant(items: Seq<TrashedView>) -> Seq<TrashedView> {
    in_stable_order(items, instants_of(items))
}

/// All the items of the trash, and the reported entries of each trash directory.
#[derive(Debug, Clone, PartialEq, Eq)]
pub struct TrashListing {
    /// The items, in the order of their deletion.
    pub items: Vec<TrashedItem>,
    /// For each trash directory, in the order given, the entries that are reported.
    pub skipped: Vec<Vec<SkippedEntry>>,
}

/// Lists all trash items: the items of every trash directory, in the order of
/// their deletion instants, earliest first.
pub fn list_all_trash_items(roots: &Vec<TrashDirEntries>) -> (listing: TrashListing)
    ensures
        trashed_of(listing.items@) == sorted_by_instant(all_listed(entries_of(roots@))),
        listing.skipped.len() == roots.len(),
        forall|r: int|
            0 <= r < roots.len() ==> (#[trigger] listing.skipped[r])@ == skipped_entries(
                entry_names_of(roots[r].names@),
            ),
{
    let ghost sources = entries_of(roots@);
    let mut all: Vec<TrashedItem> = Vec::new();
    let mut instants: Vec<i128> = Vec::new();
    let mut skipped: Vec<Vec<SkippedEntry>> = Vec::new();
    let mut r: usize = 0;
    while r < roots.len()
        invariant
            r <= roots.len(),
            sources == entries_of(roots@),
            trashed_of(all@) == all_listed(sources.take(r as int)),
            instants@ == instants_of(trashed_of(all@)),
            skipped.len() == r,
            forall|k: int|
                0 <= k < r ==> (#[trigger] skipped[k])@ == skipped_entries(
                    entry_names_of(roots[k].names@),
                ),
        decreases roots.len() - r,
    {
        assert(sources.take(r + 1).drop_last() =~= sources.take(r as int));
        assert(sources.take(r + 1).last() == sources[r as int]);
        let listing = list_trash_items(&roots[r].names);
        let ghost before = trashed_of(all@);
        let ghost found = infos_of(listing.items@);
        let mut k: usize = 0;
        while k < listing.items.len()
            invariant
                k <= listing.items.len(),
                r < roots.len(),
                found == infos_of(listing.items@),
                trashed_of(all@) == before + items_in(roots[r as int].trash_dir@, found.take(k as int)),
                instants@ == instants_of(trashed_of(all@)),
            decreases listing.items.len() - k,
        {
            let ghost so_far = trashed_of(all@);
            let item = TrashedItem {
                data: listing.items[k].clone(),
                trash_dir: roots[r].trash_dir.clone(),
            };
            assert(item@.data == found[k as int]);
            instants.push(item.data.deleted_at);
            all.push(item);
            assert(trashed_of(all@) =~= so_far.push(item@));
            assert(trashed_of(all@) =~= before + items_in(
                roots[r as int].trash_dir@,
                found.take(k + 1),
            ));
            assert(instants@ =~= instants_of(trashed_of(all@)));
            k += 1;
        }
        assert(found.take(k as int) =~= found);
        skipped.push(listing.skipped);
        r += 1;
    }
    assert(sources.take(r as int) =~= sources);
    let order = stable_order(&instants);
    let mut items: Vec<TrashedItem> = Vec::new();
    let mut j: usize = 0;
    while j < order.len()
        invariant
            j <= order.len(),
            order.len() == all.len(),
            is_stable_order(order@, instants@),
            order@ == the_stable_order(instants@),
            instants.len() == all.len(),
            items.len() == j,
            forall|i: int| 0 <= i < j ==> (#[trigger] items[i])@ == all[order[i] as int]@,
        decreases order.len() - j,
    {
        assert(order@[j as int] < all.len());
        items.push(all[order[j]].clone());
        j += 1;
    }
    assert(trashed_of(items@) =~= sorted_by_instant(trashed_of(all@)));
    TrashListing { items, skipped }
}

/// The items of `items` whose file name is `filename`, in their order.
pub open spec fn named(items: Seq<TrashedView>, filename: Seq<char>) -> Seq<TrashedView>
    decreases items.len(),
{
    if items.len() == 0 {
        Seq::empty()
    } else {
        let before = named(items.drop_last(), filename);
        if items.last().data.filename == filename {
            before.push(items.last())
        } else {
            before
        }
    }
}

/// Whether `at` is the first position in `candidates` of an item whose identifier
/// is `id`.
pub open spec fn is_first_with_id(candidates: Seq<TrashedView>, id: Seq<char>, at: int) -> bool {
    &&& 0 <= at < candidates.len()
    &&& id_text(candidates[at].data.deleted_at) == id
    &&& forall|i: int|
        0 <= i < at ==> id_text((#[trigger] candidates[i]).data.deleted_at) != id
}

/// Whether no item of `candidates` has the identifier `id`.
pub open spec fn none_with_id(candidates: Seq<TrashedView>, id: Seq<char>) -> bool {
    forall|i: int|
        0 <= i < candidates.len() ==> id_text((#[trigger] candidates[i]).data.deleted_at) != id
}

/// Trash items found by their file name.
#[derive(Debug, Clone, PartialEq, Eq)]
pub enum FoundTrashItems {
    /// The one item that was asked for.
    Single(TrashedItem),
    /// Several items with the file name, where no identifier told them apart.
    Multi(Vec<TrashedItem>),
}

/// Why the search for an item failed.
#[derive(Debug, Clone, PartialEq, Eq)]
pub enum LookupError {
    /// No item in the trash has the file name.
    NotFound,
    /// Several items have the file name, and none of them has the identifier.
    NoSuchId,
    /// Several items have the file name and no identifier was given: all of them.
    Ambiguous(Vec<TrashedItem>),
}

/// Whether `outcome` is what the search for `filename` and `id` in `items` gives.
///
/// The candidates are the items with the file name. None: not found. One: that
/// item, whatever the identifier. Several and no identifier: all of them. Several
/// and an identifier: the first candidate with that identifier, or an error where
/// no candidate has it.
pub open spec fn is_found(
    outcome: Result<FoundTrashItems, LookupError>,
    items: Seq<TrashedView>,
    filename: Seq<char>,
    id: Option<Seq<char>>,
) -> bool {
    let candidates = named(items, filename);
    if candidates.len() == 0 {
        outcome matches Err(LookupError::NotFound)
    } else if candidates.len() == 1 {
        outcome matches Ok(FoundTrashItems::Single(item)) && item@ == candidates[0]
    } else {
        match id {
            None => outcome matches Ok(FoundTrashItems::Multi(all)) && trashed_of(all@)
                == candidates,
            Some(wanted) => if none_with_id(candidates, wanted) {
                outcome matches Err(LookupError::NoSuchId)
            } else {
                outcome matches Ok(FoundTrashItems::Single(item)) && exists|at: int|
                    #[trigger] is_first_with_id(candidates, wanted, at) && item@ == candidates[at]
            },
        }
    }
}

/// Whether `outcome` is what the search for a single item gives: as `is_found`,
/// but several candidates without an identifier are an error that carries them.
pub open spec fn is_single_found(
    outcome: Result<TrashedItem, LookupError>,
    items: Seq<TrashedView>,
    filename: Seq<char>,
    id: Option<Seq<char>>,
) -> bool {
    let candidates = named(items, filename);
    if candidates.len() == 0 {
        outcome matches Err(LookupError::NotFound)
    } else if candidates.len() == 1 {
        outcome matches Ok(item) && item@ == candidates[0]
    } else {
        match id {
            None => outcome matches Err(LookupError::Ambiguous(all)) && trashed_of(all@)
                == candidates,
            Some(wanted) => if none_with_id(candidates, wanted) {
                outcome matches Err(LookupError::NoSuchId)
            } else {
                outcome matches Ok(item) && exists|at: int|
                    #[trigger] is_first_with_id(candidates, wanted, at) && item@ == candidates[at]
            },
        }
    }
}

/// Where several items have one file name and were deleted at different instants,
/// the identifier of each of them finds exactly that item, and the search without
/// an identifier gives all of them. The base64 codec must be faithful on their
/// identifiers, as it is on every identifier that `compute_id` has made.
pub proof fn lemma_identifier_finds_its_item(
    by_id: Result<FoundTrashItems, LookupError>,
    without_id: Result<FoundTrashItems, LookupError>,
    items: Seq<TrashedView>,
    filename: Seq<char>,
    which: int,
)
    requires
        named(items, filename).len() >= 2,
        0 <= which < named(items, filename).len(),
        forall|i: int|
            0 <= i < named(items, filename).len() ==> {
                let instant = (#[trigger] named(items, filename)[i]).data.deleted_at;
                i128::MIN <= instant <= i128::MAX && codec_faithful(id_bytes(instant))
            },
        forall|i: int, j: int|
            0 <= i < j < named(items, filename).len() ==> (#[trigger] named(
                items,
                filename,
            )[i]).data.deleted_at != (#[trigger] named(items, filename)[j]).data.deleted_at,
        is_found(
            by_id,
            items,
            filename,
            Some(id_text(named(items, filename)[which].data.deleted_at)),
        ),
        is_found(without_id, items, filename, None),
    ensures
        by_id matches Ok(FoundTrashItems::Single(item)) && item@ == named(items, filename)[which],
        without_id matches Ok(FoundTrashItems::Multi(all)) && trashed_of(all@) == named(
            items,
            filename,
        ),
        forall|i: int|
            0 <= i < named(items, filename).len() && i != which ==> id_text(
                (#[trigger] named(items, filename)[i]).data.deleted_at,
            ) != id_text(named(items, filename)[which].data.deleted_at),
{
    let candidates = named(items, filename);
    let wanted = id_text(candidates[which].data.deleted_at);
    assert forall|i: int| 0 <= i < candidates.len() && i != which implies id_text(
        (#[trigger] candidates[i]).data.deleted_at,
    ) != wanted by {
        if i < which {
            assert(candidates[i].data.deleted_at != candidates[which].data.deleted_at);
        } else {
            assert(candidates[which].data.deleted_at != candidates[i].data.deleted_at);
        }
        lemma_identifiers_differ(
            candidates[i].data.deleted_at as i128,
            candidates[which].data.deleted_at as i128,
        );
    }
    assert(is_first_with_id(candidates, wanted, which));
    assert(!none_with_id(candidates, wanted));
    assert forall|at: int| is_first_with_id(candidates, wanted, at) implies at == which by {
        if at != which {
            assert(id_text(candidates[at].data.deleted_at) != wanted);
        }
    }
}

/// The items of `items` whose file name is `filename`, in their order.
pub fn items_named(items: &Vec<TrashedItem>, filename: &str) -> (candidates: Vec<TrashedItem>)
    ensures
        trashed_of(candidates@) == named(trashed_of(items@), filename@),
{
    let ghost all = trashed_of(items@);
    let wanted = String::from_str(filename);
    let mut candidates: Vec<TrashedItem> = Vec::new();
    let mut i: usize = 0;
    while i < items.len()
        invariant
            i <= items.len(),
            all == trashed_of(items@),
            wanted@ == filename@,
            trashed_of(candidates@) == named(all.take(i as int), filename@),
        decreases items.len() - i,
    {
        assert(all.take(i + 1).drop_last() =~= all.take(i as int));
        assert(all.take(i + 1).last() == items[i as int]@);
        if items[i].data.filename == wanted {
            let ghost before = trashed_of(candidates@);
            candidates.push(items[i].clone());
            assert(trashed_of(candidates@) =~= before.push(items[i as int]@));
        }
        i += 1;
    }
    assert(all.take(i as int) =~= all);
    candidates
}

/// Finds an item in the trash by its file name and, where several items have that
/// name, by its identifier.
pub fn expect_trash_item(filename: &str, id: Option<&str>, items: &Vec<TrashedItem>) -> (outcome:
    Result<FoundTrashItems, LookupError>)
    ensures
        is_found(
            outcome,
            trashed_of(items@),
            filename@,
            match id {
                Some(text) => Some(text@),
                None => None,
            },
        ),
{
    let mut candidates = items_named(items, filename);
    if candidates.len() == 0 {
        return Err(LookupError::NotFound);
    }
    if candidates.len() == 1 {
        let ghost only = trashed_of(candidates@)[0];
        let item = candidates.remove(0);
        assert(item@ == only);
        return Ok(FoundTrashItems::Single(item));
    }
    let wanted = match id {
        None => {
            return Ok(FoundTrashItems::Multi(candidates));
        },
        Some(text) => String::from_str(text),
    };
    let ghost found = trashed_of(candidates@);
    let mut i: usize = 0;
    while i < candidates.len()
        invariant
            i <= candidates.len(),
            found == trashed_of(candidates@),
            found == named(trashed_of(items@), filename@),
            found.len() > 1,
            wanted@ == id->0@,
            id is Some,
            forall|k: int| 0 <= k < i ==> id_text((#[trigger] found[k]).data.deleted_at) != wanted@,
        decreases candidates.len() - i,
    {
        assert(found[i as int] == candidates[i as int]@);
        if candidates[i].data.compute_id() == wanted {
            assert(is_first_with_id(found, wanted@, i as int));
            assert(!none_with_id(found, wanted@));
            let item = candidates[i].clone();
            assert(item@ == found[i as int]);
            return Ok(FoundTrashItems::Single(item));
        }
        i += 1;
    }
    assert(none_with_id(found, wanted@));
    Err(LookupError::NoSuchId)
}

/// Finds one item in the trash. Several items with the file name and no
/// identifier to tell them apart are an error that carries all of them, so that
/// the caller can show them and ask again with an identifier.
pub fn expect_single_trash_item(filename: &str, id: Option<&str>, items: &Vec<TrashedItem>) -> (outcome:
    Result<TrashedItem, LookupError>)
    ensures
        is_single_found(
            outcome,
            trashed_of(items@),
            filename@,
            match id {
                Some(text) => Some(text@),
                None => None,
            },
        ),
{
    match expect_trash_item(filename, id, items) {
        Ok(FoundTrashItems::Single(item)) => Ok(item),
        Ok(FoundTrashItems::Multi(candidates)) => Err(LookupError::Ambiguous(candidates)),
        Err(reason) => Err(reason),
    }
}

/// The trash directories of the items, each once, in the order in which they
/// first come.
pub open spec fn dirs_in_order(items: Seq<TrashedView>) -> Seq<PathView>
    decreases items.len(),
{
    if items.len() == 0 {
        Seq::empty()
    } else {
        let before = dirs_in_order(items.drop_last());
        if before.contains(items.last().trash_dir) {
            before
        } else {
            before.push(items.last().trash_dir)
        }
    }
}

/// The items that lie in `trash_dir`, in their order.
pub open spec fn items_of_dir(items: Seq<TrashedView>, trash_dir: PathView) -> Seq<ItemView>
    decreases items.len(),
{
    if items.len() == 0 {
        Seq::empty()
    } else {
        let before = items_of_dir(items.drop_last(), trash_dir);
        if items.last().trash_dir == trash_dir {
            before.push(items.last().data)
        } else {
            before
        }
    }
}

/// The items by trash directory: the directories in the order in which they first
/// come, each with its items in their order.
pub open spec fn grouped(items: Seq<TrashedView>) -> Seq<(PathView, Seq<ItemView>)> {
    Seq::new(
        dirs_in_order(items).len(),
        |g: int| (dirs_in_order(items)[g], items_of_dir(items, dirs_in_order(items)[g])),
    )
}

/// The items of one trash directory.
#[derive(Debug, Clone, PartialEq, Eq)]
pub struct TrashDirGroup {
    pub trash_dir: FsPath,
    pub items: Vec<TrashItemInfos>,
}

/// The models of a list of groups.
pub open spec fn groups_of(groups: Seq<TrashDirGroup>) -> Seq<(PathView, Seq<ItemView>)> {
    Seq::new(groups.len(), |g: int| (groups[g].trash_dir@, infos_of(groups[g].items@)))
}

/// Groups items by their trash directory, so that the candidates of an ambiguous
/// search can be shown directory by directory.
pub fn group_by_trash_dir(candidates: &Vec<TrashedItem>) -> (groups: Vec<TrashDirGroup>)
    ensures
        groups_of(groups@) == grouped(trashed_of(candidates@)),
{
    let ghost all = trashed_of(candidates@);
    let mut groups: Vec<TrashDirGroup> = Vec::new();
    let mut i: usize = 0;
    while i < candidates.len()
        invariant
            i <= candidates.len(),
            all == trashed_of(candidates@),
            groups_of(groups@) == grouped(all.take(i as int)),
        decreases candidates.len() - i,
    {
        let ghost seen = all.take(i as int);
        let ghost next = all.take(i + 1);
        let ghost before = groups_of(groups@);
        let ghost dir = candidates[i as int]@.trash_dir;
        assert(next.drop_last() =~= seen);
        assert(next.last() == candidates[i as int]@);
        assert forall|d: PathView| #[trigger]
            items_of_dir(next, d) == if d == dir {
                items_of_dir(seen, d).push(candidates[i as int]@.data)
            } else {
                items_of_dir(seen, d)
            } by {}
        let mut g: usize = 0;
        while g < groups.len() && !groups[g].trash_dir.same_as(&candidates[i].trash_dir)
            invariant
                g <= groups.len(),
                i < candidates.len(),
                dir == candidates[i as int]@.trash_dir,
                before == groups_of(groups@),
                forall|k: int| 0 <= k < g ==> (#[trigger] before[k]).0 != dir,
            decreases groups.len() - g,
        {
            assert(before[g as int].0 == groups[g as int].trash_dir@);
            g += 1;
        }
        let item = candidates[i].data.clone();
        if g < groups.len() {
            assert(before[g as int].0 == dir);
            assert(before == grouped(seen));
            assert(before.len() == dirs_in_order(seen).len());
            assert(before[g as int] == grouped(seen)[g as int]);
            assert(dirs_in_order(seen)[g as int] == dir);
            assert(dirs_in_order(seen).contains(dir));
            assert(dirs_in_order(next) == dirs_in_order(seen));
            let ghost items_before = infos_of(groups[g as int].items@);
            let mut group = groups.remove(g);
            group.items.push(item);
            assert(infos_of(group.items@) =~= items_before.push(candidates[i as int]@.data));
            groups.insert(g, group);
            assert(groups_of(groups@) =~= grouped(next)) by {
                assert(groups@.len() == before.len());
                assert forall|k: int| 0 <= k < before.len() implies groups_of(groups@)[k]
                    == grouped(next)[k] by {
                    assert(before[k] == grouped(seen)[k]);
                    if k != g {
                        lemma_dirs_distinct(seen, k, g as int);
                    }
                }
            }
        } else {
            assert(before == grouped(seen));
            assert(before.len() == dirs_in_order(seen).len());
            assert(!dirs_in_order(seen).contains(dir)) by {
                if dirs_in_order(seen).contains(dir) {
                    let k = choose|k: int|
                        0 <= k < dirs_in_order(seen).len() && dirs_in_order(seen)[k] == dir;
                    assert(before[k] == grouped(seen)[k]);
                    assert(before[k].0 == dir);
                }
            }
            assert(dirs_in_order(next) == dirs_in_order(seen).push(dir));
            proof {
                lemma_unlisted_dir_holds_nothing(seen, dir);
            }
            let mut items: Vec<TrashItemInfos> = Vec::new();
            items.push(item);
            assert(infos_of(items@) =~= seq![candidates[i as int]@.data]);
            groups.push(TrashDirGroup { trash_dir: candidates[i].trash_dir.clone(), items });
            assert(groups_of(groups@) =~= grouped(next)) by {
                let last = before.len() as int;
                assert(groups_of(groups@).len() == last + 1);
                assert(grouped(next).len() == last + 1);
                assert(items_of_dir(seen, dir) =~= Seq::empty());
                assert(items_of_dir(next, dir) =~= seq![candidates[i as int]@.data]);
                assert(groups_of(groups@)[last] == (dir, seq![candidates[i as int]@.data]));
                assert(grouped(next)[last] == (dir, items_of_dir(next, dir)));
                assert forall|k: int| 0 <= k < before.len() implies groups_of(groups@)[k]
                    == grouped(next)[k] by {
                    assert(groups_of(groups@)[k] == before[k]);
                    assert(before[k] == grouped(seen)[k]);
                    assert(dirs_in_order(seen).contains(dirs_in_order(seen)[k]));
                    assert(dirs_in_order(next)[k] == dirs_in_order(seen)[k]);
                }
            }
        }
        i += 1;
    }
    assert(all.take(i as int) =~= all);
    groups
}

/// No trash directory stands twice among the directories in order.
pub proof fn lemma_dirs_distinct(items: Seq<TrashedView>, first: int, second: int)
    requires
        0 <= first < dirs_in_order(items).len(),
        0 <= second < dirs_in_order(items).len(),
        first != second,
    ensures
        dirs_in_order(items)[first] != dirs_in_order(items)[second],
    decreases items.len(),
{
    if items.len() > 0 {
        let before = dirs_in_order(items.drop_last());
        if first < before.len() && second < before.len() {
            lemma_dirs_distinct(items.drop_last(), first, second);
        } else if first < before.len() {
            assert(before.contains(before[first]));
        } else if second < before.len() {
            assert(before.contains(before[second]));
        }
    }
}

/// A trash directory that is not among the directories in order holds no item.
pub proof fn lemma_unlisted_dir_holds_nothing(items: Seq<TrashedView>, trash_dir: PathView)
    requires
        !dirs_in_order(items).contains(trash_dir),
    ensures
        items_of_dir(items, trash_dir).len() == 0,
    decreases items.len(),
{
    if items.len() > 0 {
        let before = dirs_in_order(items.drop_last());
        let listed = dirs_in_order(items);
        if before.contains(trash_dir) {
            let k = choose|k: int| 0 <= k < before.len() && before[k] == trash_dir;
            assert(listed[k] == trash_dir);
        }
        if items.last().trash_dir == trash_dir {
            if !before.contains(trash_dir) {
                assert(listed[listed.len() - 1] == trash_dir);
            }
        }
        lemma_unlisted_dir_holds_nothing(items.drop_last(), trash_dir);
    }
}

} // verus!
