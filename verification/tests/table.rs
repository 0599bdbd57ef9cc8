use trasher::items::TrashItemInfos;
use trasher::table::{table_for_items, table_header, EntryKind, TableEntry};

#[test]
fn the_table_has_five_columns() {
    assert_eq!(table_header(), vec!["Type", "Filename", "Size", "ID", "Deleted on"]);
}

#[test]
fn a_row_shows_kind_name_size_identifier_and_date() {
    let entries = vec![
        TableEntry {
            item: TrashItemInfos::new("notes.txt".to_string(), 1),
            kind: EntryKind::File,
            size: 1536,
            deleted_on: Some("Mon, 1 Jan 2024 00:00:00 +0000".to_string()),
        },
        TableEntry {
            item: TrashItemInfos::new("photos".to_string(), 256),
            kind: EntryKind::Directory,
            size: 4096,
            deleted_on: None,
        },
        TableEntry {
            item: TrashItemInfos::new("pipe".to_string(), 255),
            kind: EntryKind::Other,
            size: 0,
            deleted_on: Some(String::new()),
        },
    ];
    let rows = table_for_items(&entries);
    assert_eq!(
        rows,
        vec![
            vec!["File", "notes.txt", "1.50 KiB", "AQ", "Mon, 1 Jan 2024 00:00:00 +0000"],
            vec!["Directory", "photos", "", "AQA", "<Failed to format date>"],
            vec!["<Unknown>", "pipe", "", "_w", ""],
        ]
    );
    assert!(table_for_items(&Vec::new()).is_empty());
}
