use lr::collect::{diagnostic, find_files};
use lr::entry::{Access, Entry, EntryKind, FileStat, Listing, Probe, Stat, Timestamp};
use lr::{execute, Input};

fn entry(kind: EntryKind, bits: u32, links: u64, size: u64) -> Entry {
    Entry {
        kind,
        permission_bits: bits,
        link_count: links,
        owner_id: 1000,
        group_id: 1000,
        size_bytes: size,
        modified_at: Timestamp { seconds: 1704207840, nanos: 0, utc_offset: 0 },
    }
}

fn child(path: &str, kind: EntryKind, bits: u32, links: u64, size: u64) -> FileStat {
    FileStat { path: path.to_string(), stat: Stat::Found(entry(kind, bits, links, size)) }
}

/// The directory `tests/inputs`, with its children in the order in which a
/// filesystem might hand them out.
fn inputs() -> Vec<Probe> {
    vec![Probe {
        path: "tests/inputs".to_string(),
        access: Access::Directory(Listing::Children(vec![
            child("tests/inputs/file1.txt", EntryKind::File, 0o664, 1, 0),
            child("tests/inputs/dir2", EntryKind::Directory, 0o555, 2, 4096),
            child("tests/inputs/.hidden_file.txt", EntryKind::File, 0o444, 1, 0),
            child("tests/inputs/dir1", EntryKind::Directory, 0o775, 2, 4096),
        ])),
    }]
}

fn run(probes: &Vec<Probe>, show_all: bool, long: bool) -> (String, Vec<String>) {
    let paths = probes.iter().map(|p| p.path.clone()).collect();
    let report = execute(&Input::new(paths, show_all, long), probes);
    (strip(&report.stdout), report.diagnostics)
}

/// The text without its escape sequences.
fn strip(text: &str) -> String {
    let mut plain = String::new();
    let mut chars = text.chars();
    while let Some(c) = chars.next() {
        if c == '\u{1b}' {
            for d in chars.by_ref() {
                if d == 'm' {
                    break;
                }
            }
        } else {
            plain.push(c);
        }
    }
    plain
}

fn line_of<'a>(stdout: &'a str, name: &str) -> &'a str {
    stdout
        .lines()
        .find(|line| line.ends_with(&format!(" {}", name)))
        .unwrap_or_else(|| panic!("no line for {}", name))
}

#[test]
fn list_dir() {
    let (stdout, diagnostics) = run(&inputs(), false, false);

    assert!(diagnostics.is_empty());
    assert!(stdout.contains("file1.txt"));
    assert!(stdout.contains("dir1"));
    assert!(stdout.contains("dir2"));
    assert!(!stdout.contains(".hidden_file.txt"));
}

#[test]
fn list_hidden_files() {
    let (stdout, diagnostics) = run(&inputs(), true, false);

    assert!(diagnostics.is_empty());
    assert!(stdout.contains("file1.txt"));
    assert!(stdout.contains("dir1"));
    assert!(stdout.contains("dir2"));
    assert!(stdout.contains(".hidden_file.txt"));
}

#[test]
fn list_files_in_long_form() {
    let (stdout, diagnostics) = run(&inputs(), false, true);

    assert!(diagnostics.is_empty());
    assert!(line_of(&stdout, "dir1").starts_with("drwxrwxr-x 2 "));
    assert!(line_of(&stdout, "dir1").contains(" 4096 "));
    assert!(stdout.contains("dir1"));
    assert!(line_of(&stdout, "dir2").starts_with("dr-xr-xr-x 2 "));
    assert!(line_of(&stdout, "dir2").contains(" 4096 "));
    assert!(stdout.contains("dir2"));
    assert!(line_of(&stdout, "file1.txt").starts_with("-rw-rw-r-- 1 "));
    assert!(line_of(&stdout, "file1.txt").contains(" 0 "));
    assert!(stdout.contains("file1.txt"));
    assert!(!stdout.contains(".hidden_file.txt"));
}

#[test]
fn list_hidden_files_in_long_form() {
    let (stdout, diagnostics) = run(&inputs(), true, true);

    assert!(diagnostics.is_empty());
    assert!(line_of(&stdout, "dir1").starts_with("drwxrwxr-x 2 "));
    assert!(stdout.contains("dir1"));
    assert!(line_of(&stdout, "dir2").starts_with("dr-xr-xr-x 2 "));
    assert!(stdout.contains("dir2"));
    assert!(line_of(&stdout, "file1.txt").starts_with("-rw-rw-r-- 1 "));
    assert!(stdout.contains("file1.txt"));
    assert!(line_of(&stdout, ".hidden_file.txt").starts_with("-r--r--r-- 1 "));
    assert!(line_of(&stdout, ".hidden_file.txt").contains(" 0 "));
    assert!(stdout.contains(".hidden_file.txt"));
}

#[test]
fn compact_listing_is_in_path_order() {
    let (stdout, _) = run(&inputs(), true, false);
    assert_eq!(stdout, ".hidden_file.txt  dir1  dir2  file1.txt  ");
    let (visible, _) = run(&inputs(), false, false);
    assert_eq!(visible, "dir1  dir2  file1.txt  ");
}

#[test]
fn long_listing_is_in_path_order() {
    let (stdout, _) = run(&inputs(), true, true);
    let names: Vec<&str> = stdout.lines().map(|l| l.rsplit(' ').next().unwrap()).collect();
    assert_eq!(names, vec![".hidden_file.txt", "dir1", "dir2", "file1.txt"]);
    for line in stdout.lines() {
        let head: Vec<char> = line.chars().take(10).collect();
        assert!(head[0] == 'd' || head[0] == '-');
        assert!(head[1..].iter().all(|c| "rwx-".contains(*c)));
        assert_eq!(line.chars().nth(10), Some(' '));
        assert!(line.contains(" Jan 02 24 15:04 "));
    }
}

#[test]
fn listing_is_the_same_whatever_order_the_children_came_in() {
    let mut shuffled = inputs();
    if let Access::Directory(Listing::Children(children)) = &mut shuffled[0].access {
        children.reverse();
    }
    assert_eq!(run(&inputs(), true, false), run(&shuffled, true, false));
    assert_eq!(run(&inputs(), true, false), run(&inputs(), true, false));
}

#[test]
fn plain_file_is_listed_alone_and_unchanged() {
    let probes = vec![Probe {
        path: "tests/inputs/file1.txt".to_string(),
        access: Access::File(Stat::Found(entry(EntryKind::File, 0o664, 1, 0))),
    }];
    let found = find_files(&probes);
    assert_eq!(found.files, vec![child("tests/inputs/file1.txt", EntryKind::File, 0o664, 1, 0)]);
    assert!(found.diagnostics.is_empty());
    let (stdout, _) = run(&probes, false, false);
    assert_eq!(stdout, "file1.txt  ");
}

#[test]
fn plain_file_whose_metadata_vanished_is_reported() {
    let probes = vec![Probe {
        path: "racy".to_string(),
        access: Access::File(Stat::Missing("entity not found".to_string())),
    }];
    let (stdout, diagnostics) = run(&probes, false, false);
    assert_eq!(stdout, "");
    assert_eq!(diagnostics, vec!["cannot access file's metadata 'racy': entity not found"]);
}

#[test]
fn nonexistent_path_is_reported_and_the_others_are_listed() {
    let probes = vec![
        Probe {
            path: "zeta.txt".to_string(),
            access: Access::File(Stat::Found(entry(EntryKind::File, 0o644, 1, 5))),
        },
        Probe {
            path: "no/such/path".to_string(),
            access: Access::Inaccessible("No such file or directory (os error 2)".to_string()),
        },
        Probe {
            path: "alpha.txt".to_string(),
            access: Access::File(Stat::Found(entry(EntryKind::File, 0o644, 1, 5))),
        },
    ];
    let (stdout, diagnostics) = run(&probes, false, false);
    assert_eq!(stdout, "alpha.txt  zeta.txt  ");
    assert!(!stdout.contains("path"));
    assert_eq!(
        diagnostics,
        vec!["cannot access 'no/such/path': No such file or directory (os error 2)"]
    );
    assert!(diagnostics[0].contains("no/such/path"));
}

#[test]
fn directory_that_cannot_be_opened_is_reported_and_adds_nothing() {
    let probes = vec![
        Probe {
            path: "locked".to_string(),
            access: Access::Directory(Listing::Unreadable("permission denied".to_string())),
        },
        Probe {
            path: "open".to_string(),
            access: Access::Directory(Listing::Children(vec![child(
                "open/a",
                EntryKind::File,
                0o600,
                1,
                1,
            )])),
        },
    ];
    let found = find_files(&probes);
    assert_eq!(found.files, vec![child("open/a", EntryKind::File, 0o600, 1, 1)]);
    assert_eq!(found.diagnostics, vec!["cannot open directory 'locked': permission denied"]);
}

#[test]
fn diagnostics_come_in_the_order_of_the_arguments() {
    let probes = vec![
        Probe { path: "z".to_string(), access: Access::Inaccessible("first".to_string()) },
        Probe {
            path: "m".to_string(),
            access: Access::Directory(Listing::Unreadable("second".to_string())),
        },
        Probe { path: "a".to_string(), access: Access::Inaccessible("third".to_string()) },
        Probe {
            path: "b".to_string(),
            access: Access::File(Stat::Missing("fourth".to_string())),
        },
    ];
    let (stdout, diagnostics) = run(&probes, true, true);
    assert_eq!(stdout, "");
    assert_eq!(
        diagnostics,
        vec![
            "cannot access 'z': first",
            "cannot open directory 'm': second",
            "cannot access 'a': third",
            "cannot access file's metadata 'b': fourth",
        ]
    );
}

#[test]
fn files_of_several_arguments_are_listed_together() {
    let probes = vec![
        Probe {
            path: "b".to_string(),
            access: Access::Directory(Listing::Children(vec![
                child("b/2", EntryKind::File, 0o644, 1, 0),
                child("b/1", EntryKind::File, 0o644, 1, 0),
            ])),
        },
        Probe {
            path: "a".to_string(),
            access: Access::Directory(Listing::Children(vec![
                child("a/9", EntryKind::File, 0o644, 1, 0),
            ])),
        },
        Probe {
            path: "b/0".to_string(),
            access: Access::File(Stat::Found(entry(EntryKind::File, 0o644, 1, 0))),
        },
    ];
    let found = find_files(&probes);
    let paths: Vec<&str> = found.files.iter().map(|f| f.path.as_str()).collect();
    assert_eq!(paths, vec!["a/9", "b/0", "b/1", "b/2"]);
}

#[test]
fn directory_is_expanded_one_level_only() {
    let probes = vec![Probe {
        path: "top".to_string(),
        access: Access::Directory(Listing::Children(vec![child(
            "top/sub",
            EntryKind::Directory,
            0o755,
            2,
            4096,
        )])),
    }];
    let found = find_files(&probes);
    assert_eq!(found.files, vec![child("top/sub", EntryKind::Directory, 0o755, 2, 4096)]);
}

#[test]
fn empty_directory_lists_nothing() {
    let probes = vec![Probe {
        path: "empty".to_string(),
        access: Access::Directory(Listing::Children(Vec::new())),
    }];
    let (stdout, diagnostics) = run(&probes, true, true);
    assert_eq!(stdout, "");
    assert!(diagnostics.is_empty());
}

#[test]
fn diagnostic_names_the_path_in_quotes() {
    assert_eq!(diagnostic("cannot access", "a b", "why"), "cannot access 'a b': why");
    assert_eq!(diagnostic("", "", ""), " '': ");
}

#[test]
fn input_without_paths_lists_the_current_directory() {
    let input = Input::new(Vec::new(), false, true);
    assert_eq!(input.paths, vec![".".to_string()]);
    assert!(!input.show_all);
    assert!(input.long);
    assert_eq!(input.paths(), &vec![".".to_string()]);
}

#[test]
fn input_keeps_the_paths_given() {
    let input = Input::new(vec!["a".to_string(), "b".to_string()], true, false);
    assert_eq!(input.paths, vec!["a".to_string(), "b".to_string()]);
    assert!(input.show_all);
    assert!(!input.long);
}
