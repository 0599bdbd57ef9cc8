//! The table in which items are shown: what stands in each cell.

use crate::items::{id_text, ItemView, TrashItemInfos};
use crate::size::{human_readable_size, size_text};
use vstd::prelude::*;
use vstd::string::StringExecFns;

verus! {

/// What kind of entry an item is on disk.
#[derive(Debug, Clone, Copy, PartialEq, Eq, Structural)]
pub enum EntryKind {
    File,
    Directory,
    Other,
}

/// An item with what the caller found of it on disk.
#[derive(Debug, Clone, PartialEq, Eq)]
pub struct TableEntry {
    /// The item.
    pub item: TrashItemInfos,
    /// Whether it is a file or a directory.
    pub kind: EntryKind,
    /// Its size in bytes.
    pub size: u64,
    /// The date of its deletion as text, `None` where it could not be written.
    pub deleted_on: Option<String>,
}

/// The headings of the columns.
pub open spec fn header_cells() -> Seq<Seq<char>> {
    seq!["Type"@, "Filename"@, "Size"@, "ID"@, "Deleted on"@]
}

/// The cells of the row of an entry: its kind, its file name, its size where it
/// is a file, its identifier, and the date of its deletion.
pub open spec fn row_cells(
    item: ItemView,
    kind: EntryKind,
    size: u64,
    deleted_on: Option<String>,
) -> Seq<Seq<char>> {
    seq![
        match kind {
            EntryKind::File => "File"@,
            EntryKind::Directory => "Directory"@,
            EntryKind::Other => "<Unknown>"@,
        },
        item.filename,
        if kind == EntryKind::File {
            size_text(size)
        } else {
            Seq::empty()
        },
        id_text(item.deleted_at),
        match deleted_on {
            Some(date) => date@,
            None => "<Failed to format date>"@,
        },
    ]
}

/// The texts of a row.
pub open spec fn cells_of(row: Seq<String>) -> Seq<Seq<char>> {
    Seq::new(row.len(), |i: int| row[i]@)
}

/// The headings of the columns.
pub fn table_header() -> (row: Vec<String>)
    ensures
        cells_of(row@) == header_cells(),
{
    let mut row: Vec<String> = Vec::new();
    row.push(String::from_str("Type"));
    row.push(String::from_str("Filename"));
    row.push(String::from_str("Size"));
    row.push(String::from_str("ID"));
    row.push(String::from_str("Deleted on"));
    assert(cells_of(row@) =~= header_cells());
    row
}

/// The rows of the table, one for each entry, in the order given.
pub fn table_for_items(entries: &Vec<TableEntry>) -> (rows: Vec<Vec<String>>)
    ensures
        rows.len() == entries.len(),
        forall|i: int|
            0 <= i < rows.len() ==> cells_of((#[trigger] rows[i])@) == row_cells(
                entries[i].item@,
                entries[i].kind,
                entries[i].size,
                entries[i].deleted_on,
            ),
{
    let mut rows: Vec<Vec<String>> = Vec::new();
    let mut i: usize = 0;
    while i < entries.len()
        invariant
            i <= entries.len(),
            rows.len() == i,
            forall|k: int|
                0 <= k < i ==> cells_of((#[trigger] rows[k])@) == row_cells(
                    entries[k].item@,
                    entries[k].kind,
                    entries[k].size,
                    entries[k].deleted_on,
                ),
        decreases entries.len() - i,
    {
        let entry = &entries[i];
        let mut row: Vec<String> = Vec::new();
        row.push(
            String::from_str(
                match entry.kind {
                    EntryKind::File => "File",
                    EntryKind::Directory => "Directory",
                    EntryKind::Other => "<Unknown>",
                },
            ),
        );
        row.push(entry.item.filename.clone());
        row.push(
            match entry.kind {
                EntryKind::File => human_readable_size(entry.size),
                _ => String::new(),
            },
        );
        row.push(entry.item.compute_id());
        row.push(
            match &entry.deleted_on {
                Some(date) => date.clone(),
                None => String::from_str("<Failed to format date>"),
            },
        );
        assert(cells_of(row@) =~= row_cells(
            entry.item@,
            entry.kind,
            entry.size,
            entry.deleted_on,
        ));
        rows.push(row);
        i += 1;
    }
    rows
}

} // verus!
