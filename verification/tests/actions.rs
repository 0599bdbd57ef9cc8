use trasher::actions::{
    after_path, chosen_restore, confirmation_accepted, count_in_trash_dir, drop, empty, list,
    list_trash_items_recursively, path_of, remove, reports_progress, restore, restore_destination,
    restore_with_ui, BatchStep, EmptyError, FileName, PathFacts, PathOutcome, Removal, RemoveError,
    RestoreError,
    TrashDirTree,
};
use trasher::args::{DropItem, GetItemPath, ListTrashItems, MoveToTrash, RestoreItem};
use trasher::catalog::{list_all_trash_items, LookupError, TrashDirEntries, TrashedItem};
use trasher::items::TrashItemInfos;
use trasher::paths::FsPath;
use trasher::transfer::{FsAction, FsEvent, Transfer, TransferError};

fn p(text: &str) -> FsPath {
    FsPath {
        absolute: text.starts_with('/'),
        components: text.split('/').filter(|c| !c.is_empty()).map(|c| c.to_string()).collect(),
    }
}

fn item(filename: &str, deleted_at: i128, trash_dir: &str) -> TrashedItem {
    TrashedItem {
        data: TrashItemInfos::new(filename.to_string(), deleted_at),
        trash_dir: p(trash_dir),
    }
}

fn items() -> Vec<TrashedItem> {
    vec![
        item("notes.txt", 1, "/home/alice/.trasher"),
        item("photo.png", 2, "/mnt/usb/.trasher"),
        item("notes.txt", 3, "/mnt/usb/.trasher"),
        item("old notes", 4, "/home/alice/.trasher"),
    ]
}

fn options(permanently: bool, ignore: bool, allow_lossy: bool) -> MoveToTrash {
    MoveToTrash {
        paths: Vec::new(),
        permanently,
        ignore,
        allow_invalid_utf8_item_names: allow_lossy,
        size_limit_move_ext_filesystems: None,
    }
}

fn file(name: &str) -> PathFacts {
    PathFacts { exists: true, is_file: true, file_name: FileName::Utf8(name.to_string()) }
}

#[test]
fn the_listing_keeps_the_items_whose_name_holds_the_text() {
    let all = items();
    let shown = list(&ListTrashItems { name: Some("notes".to_string()), all: true }, &all);
    assert_eq!(shown, vec![all[0].clone(), all[2].clone(), all[3].clone()]);
    let shown = list(&ListTrashItems { name: Some(".png".to_string()), all: true }, &all);
    assert_eq!(shown, vec![all[1].clone()]);
    let shown = list(&ListTrashItems { name: Some("zip".to_string()), all: true }, &all);
    assert!(shown.is_empty());
    let shown = list(&ListTrashItems { name: Some(String::new()), all: false }, &all);
    assert_eq!(shown, all);
    let shown = list(&ListTrashItems { name: None, all: false }, &all);
    assert_eq!(shown, all);
}

#[test]
fn an_item_is_trashed_under_its_file_name() {
    let decision = remove(&options(false, false, false), &p("/home/alice/docs/a.txt"), &file("a.txt"));
    assert_eq!(decision, Ok(Removal::Trash { filename: "a.txt".to_string() }));
}

#[test]
fn a_dangerous_path_is_refused_before_anything_else() {
    for path in ["/", "/home", "/usr", "/home/alice"] {
        for permanently in [false, true] {
            for exists in [false, true] {
                let facts =
                    PathFacts { exists, is_file: false, file_name: FileName::Utf8("x".to_string()) };
                assert_eq!(
                    remove(&options(permanently, true, true), &p(path), &facts),
                    Err(RemoveError::Dangerous)
                );
            }
        }
    }
}

#[test]
fn a_missing_item_is_an_error_unless_it_is_to_be_ignored() {
    let gone = PathFacts { exists: false, is_file: false, file_name: FileName::Utf8("a".to_string()) };
    let path = p("/home/alice/docs/a");
    assert_eq!(remove(&options(false, false, false), &path, &gone), Err(RemoveError::NotFound));
    assert_eq!(remove(&options(true, false, false), &path, &gone), Err(RemoveError::NotFound));
    assert_eq!(remove(&options(false, true, false), &path, &gone), Ok(Removal::Skip));
    assert_eq!(remove(&options(true, true, false), &path, &gone), Ok(Removal::Skip));
}

#[test]
fn a_permanent_removal_takes_a_directory_with_all_it_holds() {
    let path = p("/home/alice/docs/a");
    assert_eq!(
        remove(&options(true, false, false), &path, &file("a")),
        Ok(Removal::DeletePermanently { recursive: false })
    );
    let dir = PathFacts { exists: true, is_file: false, file_name: FileName::Missing };
    assert_eq!(
        remove(&options(true, false, false), &path, &dir),
        Ok(Removal::DeletePermanently { recursive: true })
    );
}

#[test]
fn a_path_without_file_name_cannot_be_trashed() {
    let facts = PathFacts { exists: true, is_file: false, file_name: FileName::Missing };
    assert_eq!(
        remove(&options(false, false, true), &p("/home/alice/docs/.."), &facts),
        Err(RemoveError::NoFileName)
    );
}

#[test]
fn a_name_that_is_not_utf8_is_trashed_only_in_lossy_mode() {
    let facts =
        PathFacts { exists: true, is_file: true, file_name: FileName::Lossy("a\u{FFFD}".to_string()) };
    let path = p("/home/alice/docs/a");
    assert_eq!(remove(&options(false, false, false), &path, &facts), Err(RemoveError::InvalidUtf8));
    assert_eq!(
        remove(&options(false, false, true), &path, &facts),
        Ok(Removal::Trash { filename: "a\u{FFFD}".to_string() })
    );
}

#[test]
fn the_path_of_an_item_lies_in_its_trash_directory() {
    let all = items();
    let query = GetItemPath {
        filename: "photo.png".to_string(),
        id: None,
        allow_invalid_utf8_path: false,
    };
    assert_eq!(path_of(&query, &all), Ok(p("/mnt/usb/.trasher").join("photo.png ^Ag")));
    let query =
        GetItemPath { filename: "notes.txt".to_string(), id: None, allow_invalid_utf8_path: false };
    assert_eq!(
        path_of(&query, &all),
        Err(LookupError::Ambiguous(vec![all[0].clone(), all[2].clone()]))
    );
    let query = GetItemPath {
        filename: "notes.txt".to_string(),
        id: Some("Aw".to_string()),
        allow_invalid_utf8_path: false,
    };
    assert_eq!(path_of(&query, &all), Ok(p("/mnt/usb/.trasher").join("notes.txt ^Aw")));
    let query =
        GetItemPath { filename: "nothing".to_string(), id: None, allow_invalid_utf8_path: true };
    assert_eq!(path_of(&query, &all), Err(LookupError::NotFound));
}

#[test]
fn dropping_an_item_removes_its_path_in_the_trash() {
    let all = items();
    let step = drop(&DropItem { filename: "photo.png".to_string(), id: None }, &all);
    assert_eq!(step, Ok(FsAction::RemoveTree(p("/mnt/usb/.trasher").join("photo.png ^Ag"))));
    let step = drop(&DropItem { filename: "notes.txt".to_string(), id: Some("AQ".to_string()) }, &all);
    assert_eq!(step, Ok(FsAction::RemoveTree(p("/home/alice/.trasher").join("notes.txt ^AQ"))));
    let step = drop(&DropItem { filename: "notes.txt".to_string(), id: Some("zz".to_string()) }, &all);
    assert_eq!(step, Err(LookupError::NoSuchId));
    let step = drop(&DropItem { filename: "nothing".to_string(), id: None }, &all);
    assert_eq!(step, Err(LookupError::NotFound));
}

fn restoring(filename: Option<&str>, to: Option<FsPath>, id: Option<&str>) -> RestoreItem {
    RestoreItem {
        filename: filename.map(|s| s.to_string()),
        to,
        id: id.map(|s| s.to_string()),
        move_ext_filesystems: false,
        force: false,
    }
}

#[test]
fn the_destination_of_a_restore_defaults_to_the_current_directory() {
    let cwd = p("/home/alice/work");
    assert_eq!(restore_destination(&restoring(Some("a"), None, None), &cwd), cwd);
    assert_eq!(
        restore_destination(&restoring(Some("a"), Some(p("out/dir")), None), &cwd),
        p("/home/alice/work/out/dir")
    );
    assert_eq!(restore_destination(&restoring(Some("a"), Some(p("/tmp/x")), None), &cwd), p("/tmp/x"));
}

#[test]
fn a_restore_starts_with_the_check_of_its_destination() {
    let all = items();
    let mut action = restoring(Some("photo.png"), None, None);
    action.force = true;
    action.move_ext_filesystems = true;
    let transfer = restore(&action, &all, &p("/home/alice/work"), true).unwrap();
    assert_eq!(transfer.source, p("/mnt/usb/.trasher").join("photo.png ^Ag"));
    assert_eq!(transfer.target, p("/home/alice/work/photo.png"));
    assert_eq!(transfer.anchor, p("/home/alice/work"));
    assert!(transfer.rules.overwrite);
    assert!(transfer.rules.allow_cross_device);
    assert!(!transfer.rules.staged);
    assert_eq!(transfer.rules.size_limit, None);
    assert_eq!(
        transfer.pending_action(),
        Some(FsAction::CheckExists(p("/home/alice/work/photo.png")))
    );
}

#[test]
fn a_restore_that_cannot_start_says_why() {
    let all = items();
    let cwd = p("/home/alice/work");
    assert_eq!(restore(&restoring(None, None, None), &all, &cwd, true), Err(RestoreError::NoFilename));
    assert_eq!(
        restore(&restoring(Some("nothing"), None, None), &all, &cwd, true),
        Err(RestoreError::Lookup(LookupError::NotFound))
    );
    assert_eq!(
        restore(&restoring(Some("notes.txt"), None, None), &all, &cwd, true),
        Err(RestoreError::Lookup(LookupError::Ambiguous(vec![all[0].clone(), all[2].clone()])))
    );
    assert_eq!(
        restore(&restoring(Some("photo.png"), None, None), &all, &p("/"), false),
        Err(RestoreError::Transfer(TransferError::MissingParent))
    );
}

#[test]
fn the_list_to_choose_from_shows_date_and_name() {
    let all = items();
    let dates = vec![Some("Mon, 1 Jan 2024".to_string()), None];
    let list = restore_with_ui(&all, &dates);
    assert_eq!(list.len(), 4);
    assert_eq!(list[0].display, "[Mon, 1 Jan 2024] notes.txt");
    assert_eq!(list[1].display, "[<Failed to format date>] photo.png");
    assert_eq!(list[3].display, "[<Failed to format date>] old notes");
    assert_eq!(list[2].value, all[2]);
}

#[test]
fn the_chosen_item_is_restored_by_name_and_identifier() {
    let all = items();
    let action = chosen_restore(&restoring(None, None, None), &all[2]);
    assert_eq!(action, restoring(Some("notes.txt"), None, Some("Aw")));
    let transfer = restore(&action, &all, &p("/home/alice/work"), true).unwrap();
    assert_eq!(transfer.source, all[2].complete_trash_item_path());
}

#[test]
fn the_chosen_item_is_restored_with_the_options_of_the_command() {
    let all = items();
    let mut command = restoring(None, Some(p("/mnt/usb/out")), None);
    command.force = true;
    command.move_ext_filesystems = true;
    let action = chosen_restore(&command, &all[1]);
    assert_eq!(action.filename, Some("photo.png".to_string()));
    assert_eq!(action.id, Some("Ag".to_string()));
    assert_eq!(action.to, Some(p("/mnt/usb/out")));
    assert!(action.force);
    assert!(action.move_ext_filesystems);
    let transfer = restore(&action, &all, &p("/mnt/usb/out"), true).unwrap();
    assert!(transfer.rules.overwrite);
    assert!(transfer.rules.allow_cross_device);
}

#[test]
fn a_failure_ends_the_batch_and_a_path_passed_over_does_not() {
    assert_eq!(after_path(0, 3, PathOutcome::Removed), BatchStep::Next(1));
    assert_eq!(after_path(0, 3, PathOutcome::PassedOver), BatchStep::Next(1));
    assert_eq!(after_path(0, 3, PathOutcome::Failed), BatchStep::Aborted);
    assert_eq!(after_path(1, 3, PathOutcome::PassedOver), BatchStep::Next(2));
    assert_eq!(after_path(2, 3, PathOutcome::Removed), BatchStep::Done);
    assert_eq!(after_path(2, 3, PathOutcome::PassedOver), BatchStep::Done);
    assert_eq!(after_path(2, 3, PathOutcome::Failed), BatchStep::Aborted);
    assert_eq!(after_path(0, 0, PathOutcome::Removed), BatchStep::Done);
    assert_eq!(after_path(usize::MAX, usize::MAX, PathOutcome::Removed), BatchStep::Done);

    let outcomes =
        [PathOutcome::Removed, PathOutcome::PassedOver, PathOutcome::Failed, PathOutcome::Removed];
    let mut dealt_with = Vec::new();
    let mut at = 0;
    loop {
        dealt_with.push(at);
        match after_path(at, outcomes.len(), outcomes[at]) {
            BatchStep::Next(next) => at = next,
            other => {
                assert_eq!(other, BatchStep::Aborted);
                break;
            }
        }
    }
    assert_eq!(dealt_with, vec![0, 1, 2]);
}

#[test]
fn only_a_lone_y_confirms() {
    for answer in ["y", "Y", "y\n", " y ", "\ty\r\n", "\u{a0}Y\u{3000}"] {
        assert!(confirmation_accepted(answer), "{:?}", answer);
    }
    for answer in ["", "\n", "n", "yes", "yy", "y y", "N", "\u{ff59}", "y.", "0"] {
        assert!(!confirmation_accepted(answer), "{:?}", answer);
    }
}

#[test]
fn the_items_of_a_trash_directory_are_counted() {
    let all = items();
    assert_eq!(count_in_trash_dir(&all, &p("/home/alice/.trasher")), 2);
    assert_eq!(count_in_trash_dir(&all, &p("/mnt/usb/.trasher")), 2);
    assert_eq!(count_in_trash_dir(&all, &p("/mnt/disk/.trasher")), 0);
    assert_eq!(count_in_trash_dir(&Vec::new(), &p("/home/alice/.trasher")), 0);
}

#[test]
fn progress_is_shown_at_every_twenty_fifth_entry_and_at_the_last() {
    assert!(reports_progress(0, 100));
    assert!(!reports_progress(1, 100));
    assert!(!reports_progress(24, 100));
    assert!(reports_progress(25, 100));
    assert!(reports_progress(50, 100));
    assert!(!reports_progress(98, 100));
    assert!(reports_progress(99, 100));
    assert!(reports_progress(0, 0));
    assert!(!reports_progress(usize::MAX, 0));
}

#[test]
fn entries_come_before_the_directories_above_them() {
    let entries = vec![
        p("/t/a"),
        p("/t/a/b"),
        p("/t/c"),
        p("/t/a/b/d"),
        p("/t/.#PARTIAL"),
        p("/t/.#PARTIAL/left"),
    ];
    let ordered = list_trash_items_recursively(&entries);
    assert_eq!(
        ordered,
        vec![
            p("/t/a/b/d"),
            p("/t/a/b"),
            p("/t/.#PARTIAL/left"),
            p("/t/a"),
            p("/t/c"),
            p("/t/.#PARTIAL"),
        ]
    );
    for (i, below) in ordered.iter().enumerate() {
        for (j, above) in ordered.iter().enumerate() {
            if below.depth() > above.depth() && below.starts_with(above) {
                assert!(i < j);
            }
        }
    }
    assert!(list_trash_items_recursively(&Vec::new()).is_empty());
}

#[test]
fn emptying_removes_every_entry_and_leaves_the_directories() {
    let trees = vec![
        TrashDirTree {
            trash_dir: p("/home/alice/.trasher"),
            entries: vec![p("/home/alice/.trasher/d"), p("/home/alice/.trasher/d/f")],
        },
        TrashDirTree { trash_dir: p("/mnt/usb/.trasher"), entries: Vec::new() },
    ];
    assert_eq!(
        empty("y\n", &trees),
        Ok(vec![
            FsAction::RemoveEntry(p("/home/alice/.trasher/d/f")),
            FsAction::RemoveEntry(p("/home/alice/.trasher/d")),
            FsAction::CreateDirIfMissing(p("/home/alice/.trasher")),
            FsAction::CreateDirIfMissing(p("/mnt/usb/.trasher")),
        ])
    );
    assert_eq!(empty("y", &Vec::new()), Ok(Vec::new()));
}

#[test]
fn without_a_yes_nothing_is_removed() {
    let trees = vec![TrashDirTree {
        trash_dir: p("/home/alice/.trasher"),
        entries: vec![p("/home/alice/.trasher/d")],
    }];
    assert_eq!(empty("n", &trees), Err(EmptyError::ConfirmationDeclined));
    assert_eq!(empty("", &trees), Err(EmptyError::ConfirmationDeclined));
}

/// A file system in memory: the paths that exist, each with the device it lies on.
struct Disk {
    paths: Vec<(FsPath, u64)>,
}

impl Disk {
    fn has(&self, path: &FsPath) -> bool {
        self.paths.iter().any(|(p, _)| p == path)
    }

    fn device(&self, path: &FsPath) -> u64 {
        self.paths.iter().find(|(p, _)| p == path).unwrap().1
    }

    fn children(&self, dir: &FsPath) -> Vec<Option<String>> {
        self.paths
            .iter()
            .filter(|(p, _)| p.parent().as_ref() == Some(dir))
            .map(|(p, _)| p.components.last().cloned())
            .collect()
    }

    fn perform(&mut self, step: FsAction) -> FsEvent {
        match step {
            FsAction::CheckExists(path) => FsEvent::Exists(self.has(&path)),
            FsAction::CreateDirIfMissing(path) => {
                if !self.has(&path) {
                    let device = self.device(&path.parent().unwrap());
                    self.paths.push((path, device));
                }
                FsEvent::Done
            }
            FsAction::CompareDevices { first, second } => {
                FsEvent::Devices { same: self.device(&first) == self.device(&second) }
            }
            FsAction::Rename { from, to } => {
                let device = self.device(&to.parent().unwrap());
                for entry in self.paths.iter_mut() {
                    if entry.0 == from {
                        *entry = (to.clone(), device);
                    }
                }
                FsEvent::Done
            }
            FsAction::RemoveTree(path) | FsAction::RemoveEntry(path) => {
                self.paths.retain(|(p, _)| !p.starts_with(&path));
                FsEvent::Done
            }
            FsAction::MeasureSize(_) => FsEvent::Size(1),
            FsAction::CopyTree { from: _, to } => {
                let device = self.device(&to.parent().unwrap());
                self.paths.push((to, device));
                FsEvent::Copied { copied: 1, total: 1 }
            }
        }
    }

    fn listing(&self, trash_dir: &FsPath) -> Vec<TrashedItem> {
        let roots =
            vec![TrashDirEntries { trash_dir: trash_dir.clone(), names: self.children(trash_dir) }];
        list_all_trash_items(&roots).items
    }
}

#[test]
fn an_item_is_trashed_listed_once_and_gone_after_the_drop() {
    let mut disk = Disk {
        paths: vec![(p("/home/alice"), 1), (p("/home/alice/notes.txt"), 1)],
    };
    let trash_dir = p("/home/alice/.trasher");
    let source = p("/home/alice/notes.txt");
    let decision = remove(&options(false, false, false), &source, &file("notes.txt")).unwrap();
    let filename = match decision {
        Removal::Trash { filename } => filename,
        other => panic!("decided {:?}", other),
    };
    let trashed = TrashedItem {
        data: TrashItemInfos::new(filename, 26_179_200_000_000_000),
        trash_dir: trash_dir.clone(),
    };
    let mut transfer = Transfer::into_trash(source.clone(), &trashed, None);
    while let Some(step) = transfer.pending_action() {
        let event = disk.perform(step);
        transfer.advance(event);
    }
    assert_eq!(transfer.outcome(), Some(Ok(())));
    assert_eq!(transfer.bytes_copied, 0);
    assert!(!disk.has(&source));
    assert!(disk.has(&trashed.complete_trash_item_path()));
    assert!(!disk.has(&trashed.transfer_trash_item_path()));

    let listed = disk.listing(&trash_dir);
    assert_eq!(listed, vec![trashed.clone()]);
    assert_eq!(listed[0].data.filename, "notes.txt");

    let step = drop(&DropItem { filename: "notes.txt".to_string(), id: None }, &listed).unwrap();
    assert_eq!(step, FsAction::RemoveTree(trashed.complete_trash_item_path()));
    disk.perform(step);
    assert!(disk.listing(&trash_dir).is_empty());
    assert!(!disk.has(&trashed.complete_trash_item_path()));
    assert!(disk.has(&trash_dir));
}

#[test]
fn two_files_of_one_name_are_trashed_side_by_side() {
    let mut disk = Disk {
        paths: vec![
            (p("/home/alice"), 1),
            (p("/home/alice/x"), 1),
            (p("/home/alice/y"), 1),
            (p("/home/alice/x/a.txt"), 1),
            (p("/home/alice/y/a.txt"), 1),
        ],
    };
    let trash_dir = p("/home/alice/.trasher");
    let mut trashed = Vec::new();
    for (source, instant) in [("/home/alice/x/a.txt", 500i128), ("/home/alice/y/a.txt", 501i128)] {
        let item = TrashedItem {
            data: TrashItemInfos::new("a.txt".to_string(), instant),
            trash_dir: trash_dir.clone(),
        };
        let mut transfer = Transfer::into_trash(p(source), &item, None);
        while let Some(step) = transfer.pending_action() {
            let event = disk.perform(step);
            transfer.advance(event);
        }
        assert_eq!(transfer.outcome(), Some(Ok(())));
        trashed.push(item);
    }
    let listed = disk.listing(&trash_dir);
    assert_eq!(listed, trashed);
    let ids: Vec<String> = listed.iter().map(|item| item.data.compute_id()).collect();
    assert_ne!(ids[0], ids[1]);
    for (item, id) in listed.iter().zip(ids.iter()) {
        let step = drop(&DropItem { filename: "a.txt".to_string(), id: Some(id.clone()) }, &listed);
        assert_eq!(step, Ok(FsAction::RemoveTree(item.complete_trash_item_path())));
    }
    assert_eq!(
        drop(&DropItem { filename: "a.txt".to_string(), id: None }, &listed),
        Err(LookupError::Ambiguous(listed.clone()))
    );
}

#[test]
fn emptying_leaves_each_trash_directory_present_and_empty() {
    let mut disk = Disk {
        paths: vec![
            (p("/home/alice"), 1),
            (p("/home/alice/.trasher"), 1),
            (p("/home/alice/.trasher/.#PARTIAL"), 1),
            (p("/home/alice/.trasher/.#PARTIAL/left ^AQ"), 1),
            (p("/home/alice/.trasher/dir ^Ag"), 1),
            (p("/home/alice/.trasher/dir ^Ag/inner"), 1),
            (p("/mnt"), 2),
        ],
    };
    let first = p("/home/alice/.trasher");
    let second = p("/mnt/.trasher");
    let entries: Vec<FsPath> = disk
        .paths
        .iter()
        .map(|(path, _)| path.clone())
        .filter(|path| path.starts_with(&first) && path != &first)
        .collect();
    let trees = vec![
        TrashDirTree { trash_dir: first.clone(), entries },
        TrashDirTree { trash_dir: second.clone(), entries: Vec::new() },
    ];
    for step in empty("y", &trees).unwrap() {
        if let FsAction::RemoveEntry(path) = &step {
            assert!(disk.paths.iter().all(|(p, _)| p == path || !p.starts_with(path)));
        }
        disk.perform(step);
    }
    for trash_dir in [&first, &second] {
        assert!(disk.has(trash_dir));
        assert!(disk.children(trash_dir).is_empty());
    }
}
