use autosprint_mcbe::files::{anchored_at, build_path, Anchor, DirEntry, FileKind, FileMeta, Location};
use autosprint_mcbe::search::{
    find_options_path, scan_known_bedrock_users, scan_options_recursive, try_options_candidate,
    Reply, Request, Search, Task,
};
use std::collections::BTreeMap;

/// A file system in memory: what each directory holds, in order, and when each
/// file was modified.
struct Disk {
    dirs: BTreeMap<String, Vec<(String, FileKind)>>,
    files: BTreeMap<String, Option<i128>>,
    listed: Vec<String>,
}

const DIR: FileKind = FileKind { is_dir: true, is_symlink: false, is_file: false };
const LINK: FileKind = FileKind { is_dir: true, is_symlink: true, is_file: false };
const FILE: FileKind = FileKind { is_dir: false, is_symlink: false, is_file: true };

impl Disk {
    fn new() -> Disk {
        Disk { dirs: BTreeMap::new(), files: BTreeMap::new(), listed: Vec::new() }
    }

    fn entry(&mut self, path: &str, kind: FileKind) {
        let cut = path.rfind('/').unwrap();
        let (parent, name) = (path[..cut].to_string(), path[cut + 1..].to_string());
        let held = self.dirs.entry(parent).or_default();
        if !held.iter().any(|(n, _)| *n == name) {
            held.push((name, kind));
        }
    }

    fn dir(&mut self, path: &str) {
        let mut at = 0;
        while let Some(next) = path[at + 1..].find('/') {
            at = at + 1 + next;
            if path[..at].contains('/') {
                self.entry(&path[..at], DIR);
            }
        }
        if path.contains('/') {
            self.entry(path, DIR);
        }
        self.dirs.entry(path.to_string()).or_default();
    }

    fn file(&mut self, path: &str, modified: Option<i128>) {
        let cut = path.rfind('/').unwrap();
        self.dir(&path[..cut]);
        self.entry(path, FILE);
        self.files.insert(path.to_string(), modified);
    }

    fn metadata(&self, path: &str) -> Option<FileMeta> {
        if let Some(modified) = self.files.get(path) {
            Some(FileMeta { is_file: true, modified: *modified })
        } else if self.dirs.contains_key(path) {
            Some(FileMeta { is_file: false, modified: Some(1_000_000) })
        } else {
            None
        }
    }

    fn listing(&mut self, path: &str) -> Option<Vec<DirEntry<String>>> {
        self.listed.push(path.to_string());
        let held = self.dirs.get(path)?;
        Some(
            held.iter()
                .map(|(name, kind)| DirEntry {
                    kind: Some(*kind),
                    name: name.clone(),
                    path: format!("{path}/{name}"),
                    path_text: format!("{path}/{name}"),
                })
                .collect(),
        )
    }

    fn find(&mut self) -> Option<String> {
        let mut search: Search<String> = find_options_path("local", "roaming");
        loop {
            let reply = match search.request() {
                Request::Metadata(l) => Reply::Metadata(self.metadata(&resolve(l))),
                Request::Listing(l) => {
                    let path = resolve(l);
                    Reply::Listing(self.listing(&path))
                }
                Request::Finished => break,
            };
            search.supply(reply);
        }
        search.best().map(|l| resolve(&l))
    }
}

fn resolve(l: &Location<String>) -> String {
    let mut path = match &l.anchor {
        Anchor::Local => "local".to_string(),
        Anchor::Roaming => "roaming".to_string(),
        Anchor::Found(p) => p.clone(),
    };
    for name in &l.tail {
        path = format!("{path}/{name}");
    }
    path
}

const UWP: &str = "local/Packages/Microsoft.MinecraftUWP_8wekyb3d8bbwe/LocalState/games/com.mojang/minecraftpe/options.txt";
const BETA: &str = "local/Packages/Microsoft.MinecraftWindowsBeta_8wekyb3d8bbwe/LocalState/games/com.mojang/minecraftpe/options.txt";

#[test]
fn nothing_to_find() {
    assert_eq!(Disk::new().find(), None);
    let mut d = Disk::new();
    d.dir("local");
    d.dir("roaming");
    assert_eq!(d.find(), None);
}

#[test]
fn known_places_are_examined() {
    let mut d = Disk::new();
    d.files.insert(UWP.to_string(), Some(5));
    assert_eq!(d.find().as_deref(), Some(UWP));
    let mut d = Disk::new();
    d.files.insert(BETA.to_string(), Some(5));
    assert_eq!(d.find().as_deref(), Some(BETA));
}

#[test]
fn requests_come_in_order() {
    let search: Search<String> = find_options_path("local", "roaming");
    match search.request() {
        Request::Metadata(l) => assert_eq!(resolve(l), UWP),
        _ => panic!("the first request is for metadata"),
    }
    let mut d = Disk::new();
    d.find();
    assert_eq!(d.listed, vec!["roaming/Minecraft Bedrock/Users", "roaming", "local"]);
}

#[test]
fn newest_file_wins() {
    let mut d = Disk::new();
    d.files.insert(UWP.to_string(), Some(5));
    d.files.insert(BETA.to_string(), Some(6));
    assert_eq!(d.find().as_deref(), Some(BETA));
    d.files.insert(UWP.to_string(), Some(7));
    assert_eq!(d.find().as_deref(), Some(UWP));
}

#[test]
fn first_of_equally_new_files_wins() {
    let mut d = Disk::new();
    d.files.insert(UWP.to_string(), Some(5));
    d.files.insert(BETA.to_string(), Some(5));
    assert_eq!(d.find().as_deref(), Some(UWP));
}

#[test]
fn first_file_is_taken_whatever_its_age() {
    let mut d = Disk::new();
    d.files.insert(UWP.to_string(), Some(-50));
    assert_eq!(d.find().as_deref(), Some(UWP));
    d.files.insert(BETA.to_string(), None);
    assert_eq!(d.find().as_deref(), Some(BETA));
    d.files.insert(UWP.to_string(), Some(0));
    assert_eq!(d.find().as_deref(), Some(UWP));
}

#[test]
fn directories_are_no_candidates() {
    let mut d = Disk::new();
    d.dirs.insert(UWP.to_string(), Vec::new());
    assert_eq!(d.find(), None);
}

#[test]
fn every_user_is_examined() {
    let mut d = Disk::new();
    let of = |user: &str| {
        format!("roaming/Minecraft Bedrock/Users/{user}/games/com.mojang/minecraftpe/options.txt")
    };
    d.dir("roaming/Minecraft Bedrock/Users/a");
    d.dir("roaming/Minecraft Bedrock/Users/b");
    d.entry("roaming/Minecraft Bedrock/Users/c", FILE);
    d.files.insert(of("a"), Some(1));
    d.files.insert(of("b"), Some(2));
    d.files.insert(of("c"), Some(3));
    assert_eq!(d.find(), Some(of("b")));
}

#[test]
fn walk_needs_the_name_and_the_path() {
    let mut d = Disk::new();
    d.file("local/a/b/options.txt", Some(9));
    assert_eq!(d.find(), None);
    d.file("local/a/MinecraftPE/other.txt", Some(9));
    assert_eq!(d.find(), None);
    d.file("local/a/MinecraftPE/OPTIONS.TXT", Some(1));
    assert_eq!(d.find().as_deref(), Some("local/a/MinecraftPE/OPTIONS.TXT"));
}

#[test]
fn walk_goes_deep_only_in_the_game() {
    // Two levels are open to all; a third needs the game in its path or name.
    let mut d = Disk::new();
    d.file("local/a/b/c/minecraftpe/options.txt", Some(1));
    assert_eq!(d.find(), None);
    assert!(d.listed.contains(&"local/a/b".to_string()));
    assert!(!d.listed.contains(&"local/a/b/c".to_string()));

    let mut d = Disk::new();
    d.file("local/a/b/Mojang/c/minecraftpe/options.txt", Some(1));
    assert_eq!(d.find().as_deref(), Some("local/a/b/Mojang/c/minecraftpe/options.txt"));

    let mut d = Disk::new();
    d.file("local/a/MINECRAFT/b/c/minecraftpe/options.txt", Some(1));
    assert_eq!(d.find().as_deref(), Some("local/a/MINECRAFT/b/c/minecraftpe/options.txt"));
}

#[test]
fn walk_stops_at_the_depth_limit() {
    // A file in a directory at depth ten is found, one level deeper it is not.
    let mut path = "local".to_string();
    for _ in 0..10 {
        path = format!("{path}/minecraftpe");
    }
    let mut d = Disk::new();
    d.file(&format!("{path}/options.txt"), Some(1));
    assert_eq!(d.find(), Some(format!("{path}/options.txt")));

    let mut d = Disk::new();
    d.file(&format!("{path}/minecraftpe/options.txt"), Some(1));
    assert_eq!(d.find(), None);
    assert!(d.listed.contains(&path));
    assert!(!d.listed.contains(&format!("{path}/minecraftpe")));
}

#[test]
fn links_are_not_followed() {
    let mut d = Disk::new();
    d.dir("local");
    d.entry("local/minecraft", LINK);
    d.dirs.insert("local/minecraft".to_string(), Vec::new());
    d.find();
    assert!(!d.listed.contains(&"local/minecraft".to_string()));
}

#[test]
fn walk_is_depth_first() {
    let mut d = Disk::new();
    d.dir("roaming/a/x");
    d.dir("roaming/b");
    d.dir("local");
    d.find();
    assert_eq!(
        d.listed,
        vec![
            "roaming/Minecraft Bedrock/Users",
            "roaming",
            "roaming/a",
            "roaming/a/x",
            "roaming/b",
            "local",
        ]
    );
}

#[test]
fn entries_of_unknown_kind_are_skipped() {
    let mut search: Search<u32> = find_options_path("l", "r");
    search.supply(Reply::Metadata(None));
    search.supply(Reply::Metadata(None));
    search.supply(Reply::Listing(None));
    let entry = DirEntry {
        kind: None,
        name: "options.txt".to_string(),
        path: 1,
        path_text: "minecraftpe/options.txt".to_string(),
    };
    search.supply(Reply::Listing(Some(vec![entry])));
    match search.request() {
        Request::Listing(l) => assert!(matches!(l.anchor, Anchor::Local)),
        _ => panic!("the local directory comes next"),
    }
    search.supply(Reply::Listing(None));
    assert!(matches!(search.request(), Request::Finished));
    assert!(search.best().is_none());
}

#[test]
fn stray_replies_change_nothing() {
    let mut search: Search<u32> = find_options_path("l", "r");
    search.supply(Reply::Listing(None));
    match search.request() {
        Request::Metadata(l) => {
            assert_eq!(l.tail[1], "Microsoft.MinecraftUWP_8wekyb3d8bbwe");
        }
        _ => panic!("the first request stands"),
    }
}

#[test]
fn names_are_joined_in_order() {
    let path = build_path(build_path(anchored_at(Anchor::Found(7)), "games"), "com.mojang");
    assert!(matches!(path.anchor, Anchor::Found(7)));
    assert_eq!(path.tail, vec!["games", "com.mojang"]);
}

#[test]
fn candidates_replace_older_ones() {
    let mut newest: i128 = 0;
    let mut best: Option<Location<u32>> = None;
    let at = |n| anchored_at(Anchor::Found(n));
    let meta = |t| Some(FileMeta { is_file: true, modified: Some(t) });
    let of = |best: &Option<Location<u32>>| match best {
        Some(Location { anchor: Anchor::Found(n), .. }) => *n,
        _ => 0,
    };
    try_options_candidate(at(1), None, &mut newest, &mut best);
    assert!(best.is_none());
    try_options_candidate(at(2), Some(FileMeta { is_file: false, modified: Some(9) }), &mut newest, &mut best);
    assert!(best.is_none());
    try_options_candidate(at(3), meta(-4), &mut newest, &mut best);
    assert_eq!((of(&best), newest), (3, -4));
    try_options_candidate(at(4), meta(-4), &mut newest, &mut best);
    assert_eq!((of(&best), newest), (3, -4));
    try_options_candidate(at(5), Some(FileMeta { is_file: true, modified: None }), &mut newest, &mut best);
    assert_eq!((of(&best), newest), (5, 0));
    try_options_candidate(at(6), meta(8), &mut newest, &mut best);
    assert_eq!((of(&best), newest), (6, 8));
}

fn options_and_folder() -> Vec<DirEntry<u32>> {
    vec![
        DirEntry {
            kind: Some(FILE),
            name: "options.txt".to_string(),
            path: 1,
            path_text: "minecraftpe/options.txt".to_string(),
        },
        DirEntry {
            kind: Some(DIR),
            name: "minecraft".to_string(),
            path: 2,
            path_text: "minecraftpe/minecraft".to_string(),
        },
    ]
}

#[test]
fn directory_below_the_limit_leaves_nothing() {
    for depth in [11, 12, u8::MAX] {
        let mut pending: Vec<Task<u32>> = Vec::new();
        scan_options_recursive("minecraftpe", depth, options_and_folder(), &mut pending);
        assert!(pending.is_empty());
        pending.push(Task::Users { path: anchored_at(Anchor::Roaming) });
        scan_options_recursive("minecraftpe", depth, options_and_folder(), &mut pending);
        assert_eq!(pending.len(), 1);
        assert!(matches!(pending[0], Task::Users { .. }));
    }
}

#[test]
fn directory_at_the_limit_leaves_its_files() {
    let mut pending: Vec<Task<u32>> = Vec::new();
    scan_options_recursive("minecraftpe", 10, options_and_folder(), &mut pending);
    assert_eq!(pending.len(), 1);
    match &pending[0] {
        Task::Candidate { path } => assert!(matches!(path.anchor, Anchor::Found(1))),
        _ => panic!("the file is a candidate"),
    }
}

#[test]
fn directory_above_the_limit_leaves_files_and_directories() {
    let mut pending: Vec<Task<u32>> = Vec::new();
    scan_options_recursive("minecraftpe", 9, options_and_folder(), &mut pending);
    assert_eq!(pending.len(), 2);
    // The first entry is on top.
    assert!(matches!(pending[1], Task::Candidate { .. }));
    match &pending[0] {
        Task::Folder { path, text, depth } => {
            assert!(matches!(path.anchor, Anchor::Found(2)));
            assert_eq!(text, "minecraftpe/minecraft");
            assert_eq!(*depth, 10);
        }
        _ => panic!("the directory is walked"),
    }
}

#[test]
fn users_leave_candidates() {
    let mut pending: Vec<Task<u32>> = Vec::new();
    scan_known_bedrock_users(options_and_folder(), &mut pending);
    assert_eq!(pending.len(), 1);
    match &pending[0] {
        Task::Candidate { path } => {
            assert!(matches!(path.anchor, Anchor::Found(2)));
            assert_eq!(path.tail, vec!["games", "com.mojang", "minecraftpe", "options.txt"]);
        }
        _ => panic!("a user leaves a candidate"),
    }
}
