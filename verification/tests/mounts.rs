use trasher::mounts::{
    always_excluded, are_on_same_fs, compute_exclusions, determine_trash_dir_for,
    is_dangerous_path, list_trash_dirs, ExcludeCandidate, ExclusionError, MountPoint, Permissions,
    ResolveError, SameFsError,
};
use trasher::paths::FsPath;

fn p(text: &str) -> FsPath {
    FsPath {
        absolute: text.starts_with('/'),
        components: text.split('/').filter(|c| !c.is_empty()).map(|c| c.to_string()).collect(),
    }
}

fn writable(text: &str) -> MountPoint {
    MountPoint {
        path: p(text),
        permissions: Some(Permissions { readonly: false, mode: 0o755 }),
        canonical: Some(p(text)),
    }
}

fn resolve(path: &str, mounts: &Vec<MountPoint>, home: &MountPoint, exclude: &Vec<FsPath>) -> FsPath {
    determine_trash_dir_for(&p(path), Some(&p(path)), mounts, home, exclude).unwrap()
}

#[test]
fn the_home_directory_is_preferred_to_the_mountpoint_above_it() {
    let mounts = vec![writable("/"), writable("/home")];
    let home = writable("/home/alice");
    let dir = resolve("/home/alice/x", &mounts, &home, &Vec::new());
    assert_eq!(dir, p("/home/alice/.trasher"));
}

#[test]
fn the_most_specific_mountpoint_wins_in_any_order() {
    let home = writable("/home/alice");
    let mounts = vec![writable("/mnt/disk/deep"), writable("/mnt"), writable("/mnt/disk")];
    assert_eq!(
        resolve("/mnt/disk/deep/file", &mounts, &home, &Vec::new()),
        p("/mnt/disk/deep/.trasher")
    );
    assert_eq!(resolve("/mnt/disk/file", &mounts, &home, &Vec::new()), p("/mnt/disk/.trasher"));
    assert_eq!(resolve("/mnt/file", &mounts, &home, &Vec::new()), p("/mnt/.trasher"));
    assert_eq!(resolve("/mnt/diskette/file", &mounts, &home, &Vec::new()), p("/mnt/.trasher"));
}

#[test]
fn a_path_under_another_users_home_goes_to_the_mountpoint() {
    let mounts = vec![writable("/"), writable("/home")];
    let home = writable("/home/alice");
    assert_eq!(resolve("/home/bob/x", &mounts, &home, &Vec::new()), p("/home/.trasher"));
}

#[test]
fn without_a_mountpoint_above_it_a_path_goes_to_the_home_trash() {
    let mounts = vec![writable("/"), writable("/mnt/disk")];
    let home = writable("/home/alice");
    assert_eq!(resolve("/srv/data/x", &mounts, &home, &Vec::new()), p("/home/alice/.trasher"));
    assert_eq!(resolve("/srv/data/x", &Vec::new(), &home, &Vec::new()), p("/home/alice/.trasher"));
}

#[test]
fn the_root_mountpoint_never_holds_the_trash() {
    let mounts = vec![writable("/")];
    let home = writable("/home/alice");
    assert_eq!(resolve("/etc/hosts", &mounts, &home, &Vec::new()), p("/home/alice/.trasher"));
}

#[test]
fn a_mountpoint_that_cannot_be_written_is_passed_over() {
    let home = writable("/home/alice");
    let mut readonly = writable("/mnt/disk");
    readonly.permissions = Some(Permissions { readonly: true, mode: 0o755 });
    let mut no_bits = writable("/mnt/disk");
    no_bits.permissions = Some(Permissions { readonly: false, mode: 0o555 });
    let mut unreadable = writable("/mnt/disk");
    unreadable.permissions = None;
    unreadable.canonical = None;
    for mount in [readonly, no_bits, unreadable] {
        let mounts = vec![writable("/mnt"), mount];
        assert_eq!(resolve("/mnt/disk/x", &mounts, &home, &Vec::new()), p("/mnt/.trasher"));
    }
    let group_writable = MountPoint {
        path: p("/mnt/disk"),
        permissions: Some(Permissions { readonly: false, mode: 0o020 }),
        canonical: Some(p("/mnt/disk")),
    };
    let mounts = vec![writable("/mnt"), group_writable];
    assert_eq!(resolve("/mnt/disk/x", &mounts, &home, &Vec::new()), p("/mnt/disk/.trasher"));
}

#[test]
fn the_canonical_path_of_a_mountpoint_counts() {
    let home = writable("/home/alice");
    let linked = MountPoint {
        path: p("/media/link"),
        permissions: Some(Permissions { readonly: false, mode: 0o755 }),
        canonical: Some(p("/mnt/disk")),
    };
    let mounts = vec![linked];
    assert_eq!(resolve("/mnt/disk/x", &mounts, &home, &Vec::new()), p("/mnt/disk/.trasher"));
    assert_eq!(resolve("/media/link/x", &mounts, &home, &Vec::new()), p("/home/alice/.trasher"));
}

#[test]
fn an_excluded_path_falls_back_to_the_home_trash() {
    let mounts = vec![writable("/"), writable("/mnt/disk")];
    let home = writable("/home/alice");
    let exclude = vec![p("/mnt/disk/private")];
    assert_eq!(resolve("/mnt/disk/private/x", &mounts, &home, &exclude), p("/home/alice/.trasher"));
    assert_eq!(resolve("/mnt/disk/private", &mounts, &home, &exclude), p("/home/alice/.trasher"));
    assert_eq!(resolve("/mnt/disk/public/x", &mounts, &home, &exclude), p("/mnt/disk/.trasher"));
    let whole = vec![p("/mnt/disk")];
    assert_eq!(resolve("/mnt/disk/x", &mounts, &home, &whole), p("/home/alice/.trasher"));
}

#[test]
fn a_path_excluded_as_given_falls_back_to_the_home_trash() {
    let mounts = vec![writable("/mnt/disk")];
    let home = writable("/home/alice");
    let exclude = vec![p("/mnt/link")];
    let dir = determine_trash_dir_for(
        &p("/mnt/link/x"),
        Some(&p("/mnt/disk/x")),
        &mounts,
        &home,
        &exclude,
    );
    assert_eq!(dir, Ok(p("/home/alice/.trasher")));
}

#[test]
fn an_excluded_path_without_canonical_form_is_an_error_too() {
    let mounts = vec![writable("/mnt/disk")];
    let home = writable("/home/alice");
    let exclude = vec![p("/proc")];
    let dir = determine_trash_dir_for(&p("/proc/1/gone"), None, &mounts, &home, &exclude);
    assert_eq!(dir, Err(ResolveError::ItemNotCanonical));
}

#[test]
fn a_path_whose_canonical_form_is_excluded_falls_back_to_the_home_trash() {
    let mounts = vec![writable("/mnt/disk")];
    let home = writable("/home/alice");
    let exclude = vec![p("/mnt/disk/private")];
    let dir = determine_trash_dir_for(
        &p("/tmp/link/x"),
        Some(&p("/mnt/disk/private/x")),
        &mounts,
        &home,
        &exclude,
    );
    assert_eq!(dir, Ok(p("/home/alice/.trasher")));
    let mut broken = writable("/mnt/broken");
    broken.canonical = None;
    let dir = determine_trash_dir_for(
        &p("/tmp/link/x"),
        Some(&p("/mnt/disk/private/x")),
        &vec![broken],
        &home,
        &exclude,
    );
    assert_eq!(dir, Ok(p("/home/alice/.trasher")));
}

#[test]
fn a_path_without_canonical_form_is_an_error() {
    let mounts = vec![writable("/mnt/disk")];
    let home = writable("/home/alice");
    let dir = determine_trash_dir_for(&p("/mnt/disk/gone"), None, &mounts, &home, &Vec::new());
    assert_eq!(dir, Err(ResolveError::ItemNotCanonical));
}

#[test]
fn a_writable_mountpoint_without_canonical_form_is_an_error() {
    let home = writable("/home/alice");
    let mut broken = writable("/mnt/broken");
    broken.canonical = None;
    let mut second = writable("/mnt/other");
    second.canonical = None;
    let mounts = vec![writable("/mnt/disk"), broken, second];
    let dir =
        determine_trash_dir_for(&p("/mnt/disk/x"), Some(&p("/mnt/disk/x")), &mounts, &home, &Vec::new());
    assert_eq!(dir, Err(ResolveError::MountpointNotCanonical(1)));
    let mut lost_home = writable("/home/alice");
    lost_home.canonical = None;
    let mounts = vec![writable("/mnt/disk")];
    let dir = determine_trash_dir_for(
        &p("/mnt/disk/x"),
        Some(&p("/mnt/disk/x")),
        &mounts,
        &lost_home,
        &Vec::new(),
    );
    assert_eq!(dir, Err(ResolveError::MountpointNotCanonical(1)));
}

#[test]
fn the_system_directories_are_always_excluded() {
    let dirs = always_excluded();
    assert_eq!(
        dirs,
        vec![
            p("/bin"),
            p("/boot"),
            p("/dev"),
            p("/lost+found"),
            p("/proc"),
            p("/run"),
            p("/sbin"),
            p("/snap"),
            p("/sys"),
            p("/usr"),
            p("/var/lib/docker"),
        ]
    );
    let candidates = vec![
        ExcludeCandidate { is_dir: true, canonical: Some(p("/data/private")) },
        ExcludeCandidate { is_dir: false, canonical: Some(p("/data/file")) },
        ExcludeCandidate { is_dir: false, canonical: None },
        ExcludeCandidate { is_dir: true, canonical: Some(p("/data/other")) },
    ];
    let exclusions = compute_exclusions(&candidates).unwrap();
    assert_eq!(exclusions.len(), 13);
    assert_eq!(exclusions[0], p("/data/private"));
    assert_eq!(exclusions[1], p("/data/other"));
    assert_eq!(exclusions[2..].to_vec(), dirs);
    assert_eq!(compute_exclusions(&Vec::new()).unwrap(), dirs);
}

#[test]
fn an_excluded_directory_without_canonical_form_is_an_error() {
    let candidates = vec![
        ExcludeCandidate { is_dir: true, canonical: Some(p("/data/private")) },
        ExcludeCandidate { is_dir: false, canonical: None },
        ExcludeCandidate { is_dir: true, canonical: None },
        ExcludeCandidate { is_dir: true, canonical: None },
    ];
    assert_eq!(compute_exclusions(&candidates), Err(ExclusionError::NotCanonical(2)));
}

#[test]
fn a_path_under_a_system_directory_goes_to_the_home_trash() {
    let exclusions = compute_exclusions(&Vec::new()).unwrap();
    let mounts = vec![writable("/"), writable("/usr"), writable("/var/lib/docker/volumes")];
    let home = writable("/home/alice");
    assert_eq!(resolve("/usr/share/x", &mounts, &home, &exclusions), p("/home/alice/.trasher"));
    assert_eq!(
        resolve("/var/lib/docker/volumes/v/x", &mounts, &home, &exclusions),
        p("/home/alice/.trasher")
    );
}

#[test]
fn the_root_and_what_lies_directly_below_it_are_dangerous() {
    assert!(is_dangerous_path(&p("/")));
    assert!(is_dangerous_path(&p("/home")));
    assert!(is_dangerous_path(&p("/etc")));
    assert!(is_dangerous_path(&p("/home/alice")));
    assert!(!is_dangerous_path(&p("/home/alice/x")));
    assert!(!is_dangerous_path(&p("/etc/hosts")));
    assert!(!is_dangerous_path(&p("/srv/alice")));
    assert!(!is_dangerous_path(&p("home")));
    assert!(!is_dangerous_path(&p("home/alice")));
    assert!(!is_dangerous_path(&p("")));
}

#[test]
fn two_paths_are_on_the_same_file_system_when_their_devices_are_equal() {
    assert_eq!(are_on_same_fs(Some(7), Some(7)), Ok(true));
    assert_eq!(are_on_same_fs(Some(7), Some(8)), Ok(false));
    assert_eq!(are_on_same_fs(None, Some(8)), Err(SameFsError::FirstHasNoDevice));
    assert_eq!(are_on_same_fs(Some(7), None), Err(SameFsError::SecondHasNoDevice));
    assert_eq!(are_on_same_fs(None, None), Err(SameFsError::FirstHasNoDevice));
}

#[test]
fn the_trash_directories_are_listed_once_each() {
    let mut readonly = writable("/mnt/ro");
    readonly.permissions = Some(Permissions { readonly: true, mode: 0o755 });
    let mut gone = writable("/mnt/gone");
    gone.permissions = None;
    let mounts = vec![
        writable("/mnt/disk"),
        readonly,
        writable("/proc"),
        gone,
        writable("/home/alice"),
        writable("/mnt/disk"),
    ];
    let home = writable("/home/alice");
    let root = writable("/");
    let exclude = vec![p("/proc")];
    let dirs = list_trash_dirs(&mounts, &home, &root, &exclude);
    assert_eq!(dirs, vec![p("/.trasher"), p("/home/alice/.trasher"), p("/mnt/disk/.trasher")]);
    let dirs = list_trash_dirs(&Vec::new(), &home, &root, &vec![p("/home")]);
    assert_eq!(dirs, vec![p("/.trasher")]);
}

#[test]
fn the_trash_directories_come_sorted_by_path() {
    let mounts = vec![writable("/b"), writable("/a"), writable("/a/z"), writable("/a b")];
    let home = writable("/home/alice");
    let root = writable("/");
    let dirs = list_trash_dirs(&mounts, &home, &root, &Vec::new());
    assert_eq!(
        dirs,
        vec![
            p("/.trasher"),
            p("/a/.trasher"),
            p("/a/z/.trasher"),
            p("/a b/.trasher"),
            p("/b/.trasher"),
            p("/home/alice/.trasher"),
        ]
    );
    let mut by_the_system: Vec<std::path::PathBuf> = ["/b", "/a", "/a/z", "/a b", "/home/alice", "/"]
        .iter()
        .map(|m| std::path::Path::new(m).join(".trasher"))
        .collect();
    by_the_system.sort();
    let listed: Vec<std::path::PathBuf> = dirs
        .iter()
        .map(|dir| {
            let mut path = std::path::PathBuf::from("/");
            for component in &dir.components {
                path.push(component);
            }
            path
        })
        .collect();
    assert_eq!(listed, by_the_system);
}
