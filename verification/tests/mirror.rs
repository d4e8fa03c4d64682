use msc::error::InstallError;
use msc::registry::mirror::{MirrorAction, MirrorEvent, TreeWalk};
use msc::registry::{EntryKind, RemoteEntry};

fn file(name: &str, path: &str, url: Option<&str>) -> RemoteEntry {
    RemoteEntry {
        name: name.to_string(),
        kind: EntryKind::File,
        remote_path: path.to_string(),
        download_url: url.map(|u| u.to_string()),
        size: None,
    }
}

fn dir(name: &str, path: &str) -> RemoteEntry {
    RemoteEntry {
        name: name.to_string(),
        kind: EntryKind::Directory,
        remote_path: path.to_string(),
        download_url: None,
        size: None,
    }
}

/// A remote service held in memory: listings by path and contents by address.
struct FakeRemote {
    listings: Vec<(String, Result<Vec<RemoteEntry>, InstallError>)>,
    contents: Vec<(String, Result<Vec<u8>, InstallError>)>,
}

/// What a walk left behind.
struct Mirrored {
    outcome: Result<u64, InstallError>,
    directories: Vec<String>,
    files: Vec<(String, Vec<u8>)>,
    listed: Vec<(String, String)>,
}

fn mirror(remote: &FakeRemote, author: &str, package: &str, dest: &str) -> Mirrored {
    let (mut walk, mut action) = TreeWalk::start(author, package, dest);
    let mut done = Mirrored { outcome: Ok(0), directories: vec![], files: vec![], listed: vec![] };
    loop {
        let event = match action {
            MirrorAction::CreateDirectory { local_path } => {
                done.directories.push(local_path);
                MirrorEvent::DirectoryCreated
            }
            MirrorAction::ListDirectory { author, remote_path } => {
                let found = remote.listings.iter().find(|(path, _)| *path == remote_path);
                done.listed.push((author, remote_path));
                match found {
                    Some((_, Ok(entries))) => MirrorEvent::Listed { entries: entries.clone() },
                    Some((_, Err(error))) => MirrorEvent::Failed { error: *error },
                    None => MirrorEvent::Failed { error: InstallError::NotFound },
                }
            }
            MirrorAction::FetchFile { download_url, local_path } => {
                match remote.contents.iter().find(|(url, _)| *url == download_url) {
                    Some((_, Ok(bytes))) => {
                        done.files.push((local_path, bytes.clone()));
                        MirrorEvent::FileWritten { bytes: bytes.len() as u64 }
                    }
                    Some((_, Err(error))) => MirrorEvent::Failed { error: *error },
                    None => MirrorEvent::Failed { error: InstallError::RemoteError { status: 404 } },
                }
            }
            MirrorAction::Finish { total_bytes } => {
                assert!(walk.is_finished());
                assert_eq!(walk.total_bytes(), total_bytes);
                done.outcome = Ok(total_bytes);
                return done;
            }
            MirrorAction::Abort { error } => {
                assert_eq!(walk.failure(), Some(error));
                done.outcome = Err(error);
                return done;
            }
        };
        assert!(walk.accepts(&event));
        action = walk.step(event);
    }
}

#[test]
fn mirrors_two_root_files() {
    let remote = FakeRemote {
        listings: vec![(
            "pkg".to_string(),
            Ok(vec![
                file("a.lua", "u/pkg/a.lua", Some("http://raw/a")),
                file("b.lua", "u/pkg/b.lua", Some("http://raw/b")),
            ]),
        )],
        contents: vec![
            ("http://raw/a".to_string(), Ok(vec![1u8; 10])),
            ("http://raw/b".to_string(), Ok(vec![2u8; 20])),
        ],
    };
    let done = mirror(&remote, "u", "pkg", "packages/@u/pkg");
    assert_eq!(done.outcome, Ok(30));
    assert_eq!(done.directories, vec!["packages/@u/pkg".to_string()]);
    assert_eq!(
        done.files,
        vec![
            ("packages/@u/pkg/a.lua".to_string(), vec![1u8; 10]),
            ("packages/@u/pkg/b.lua".to_string(), vec![2u8; 20]),
        ]
    );
    assert_eq!(done.listed, vec![("u".to_string(), "pkg".to_string())]);
}

#[test]
fn mirrors_nested_directory() {
    let remote = FakeRemote {
        listings: vec![
            ("pkg".to_string(), Ok(vec![dir("src", "pkg/src")])),
            ("pkg/src".to_string(), Ok(vec![file("init.lua", "pkg/src/init.lua", Some("http://raw/init"))])),
        ],
        contents: vec![("http://raw/init".to_string(), Ok(vec![7u8; 5]))],
    };
    let done = mirror(&remote, "u", "pkg", "dest");
    assert_eq!(done.outcome, Ok(5));
    assert_eq!(done.directories, vec!["dest".to_string(), "dest/src".to_string()]);
    assert_eq!(done.files, vec![("dest/src/init.lua".to_string(), vec![7u8; 5])]);
    assert_eq!(
        done.listed,
        vec![("u".to_string(), "pkg".to_string()), ("u".to_string(), "pkg/src".to_string())]
    );
}

#[test]
fn empty_nested_directory_is_still_created() {
    let remote = FakeRemote {
        listings: vec![
            ("pkg".to_string(), Ok(vec![dir("empty", "pkg/empty")])),
            ("pkg/empty".to_string(), Ok(vec![])),
        ],
        contents: vec![],
    };
    let done = mirror(&remote, "u", "pkg", "dest");
    assert_eq!(done.outcome, Ok(0));
    assert_eq!(done.directories, vec!["dest".to_string(), "dest/empty".to_string()]);
    assert!(done.files.is_empty());
}

#[test]
fn entry_without_download_url_is_skipped() {
    let remote = FakeRemote {
        listings: vec![(
            "pkg".to_string(),
            Ok(vec![
                file("sub", "pkg/sub", None),
                file("a.lua", "pkg/a.lua", Some("http://raw/a")),
            ]),
        )],
        contents: vec![("http://raw/a".to_string(), Ok(vec![0u8; 4]))],
    };
    let done = mirror(&remote, "u", "pkg", "dest");
    assert_eq!(done.outcome, Ok(4));
    assert_eq!(done.files, vec![("dest/a.lua".to_string(), vec![0u8; 4])]);
    assert_eq!(done.directories, vec!["dest".to_string()]);
}

#[test]
fn only_entries_without_download_url_give_zero_bytes() {
    let remote = FakeRemote {
        listings: vec![("pkg".to_string(), Ok(vec![file("sub", "pkg/sub", None)]))],
        contents: vec![],
    };
    let done = mirror(&remote, "u", "pkg", "dest");
    assert_eq!(done.outcome, Ok(0));
    assert!(done.files.is_empty());
}

#[test]
fn empty_root_finishes_with_zero() {
    let remote = FakeRemote { listings: vec![("pkg".to_string(), Ok(vec![]))], contents: vec![] };
    let done = mirror(&remote, "u", "pkg", "dest");
    assert_eq!(done.outcome, Ok(0));
    assert_eq!(done.directories, vec!["dest".to_string()]);
}

#[test]
fn walks_depth_first_in_listing_order() {
    let remote = FakeRemote {
        listings: vec![
            (
                "pkg".to_string(),
                Ok(vec![
                    file("first", "pkg/first", Some("u1")),
                    dir("d", "pkg/d"),
                    file("last", "pkg/last", Some("u4")),
                ]),
            ),
            (
                "pkg/d".to_string(),
                Ok(vec![dir("e", "pkg/d/e"), file("second", "pkg/d/second", Some("u3"))]),
            ),
            ("pkg/d/e".to_string(), Ok(vec![file("deep", "pkg/d/e/deep", Some("u2"))])),
        ],
        contents: vec![
            ("u1".to_string(), Ok(vec![0u8; 1])),
            ("u2".to_string(), Ok(vec![0u8; 2])),
            ("u3".to_string(), Ok(vec![0u8; 3])),
            ("u4".to_string(), Ok(vec![0u8; 4])),
        ],
    };
    let done = mirror(&remote, "u", "pkg", "dest");
    assert_eq!(done.outcome, Ok(10));
    let names: Vec<&str> = done.files.iter().map(|(path, _)| path.as_str()).collect();
    assert_eq!(names, vec!["dest/first", "dest/d/e/deep", "dest/d/second", "dest/last"]);
    assert_eq!(
        done.directories,
        vec!["dest".to_string(), "dest/d".to_string(), "dest/d/e".to_string()]
    );
}

#[test]
fn missing_root_aborts() {
    let remote = FakeRemote { listings: vec![], contents: vec![] };
    let done = mirror(&remote, "u", "pkg", "dest");
    assert_eq!(done.outcome, Err(InstallError::NotFound));
    assert!(done.files.is_empty());
}

#[test]
fn failure_in_subdirectory_aborts_the_walk() {
    let remote = FakeRemote {
        listings: vec![
            (
                "pkg".to_string(),
                Ok(vec![
                    file("a", "pkg/a", Some("ua")),
                    dir("d", "pkg/d"),
                    file("b", "pkg/b", Some("ub")),
                ]),
            ),
            ("pkg/d".to_string(), Err(InstallError::RemoteError { status: 500 })),
        ],
        contents: vec![
            ("ua".to_string(), Ok(vec![0u8; 3])),
            ("ub".to_string(), Ok(vec![0u8; 3])),
        ],
    };
    let done = mirror(&remote, "u", "pkg", "dest");
    assert_eq!(done.outcome, Err(InstallError::RemoteError { status: 500 }));
    assert_eq!(done.files.len(), 1);
    assert_eq!(done.files[0].0, "dest/a");
}

#[test]
fn failed_fetch_aborts_the_walk() {
    let remote = FakeRemote {
        listings: vec![("pkg".to_string(), Ok(vec![file("a", "pkg/a", Some("ua"))]))],
        contents: vec![("ua".to_string(), Err(InstallError::TransportError))],
    };
    let done = mirror(&remote, "u", "pkg", "dest");
    assert_eq!(done.outcome, Err(InstallError::TransportError));
}

#[test]
fn aborted_walk_stays_aborted() {
    let (mut walk, _) = TreeWalk::start("u", "pkg", "dest");
    let action = walk.step(MirrorEvent::Failed { error: InstallError::LocalIo });
    assert_eq!(action, MirrorAction::Abort { error: InstallError::LocalIo });
    let again = walk.step(MirrorEvent::DirectoryCreated);
    assert_eq!(again, MirrorAction::Abort { error: InstallError::LocalIo });
    let again = walk.step(MirrorEvent::FileWritten { bytes: 9 });
    assert_eq!(again, MirrorAction::Abort { error: InstallError::LocalIo });
    assert_eq!(walk.total_bytes(), 0);
    assert!(!walk.is_finished());
}

#[test]
fn finished_walk_stays_finished() {
    let (mut walk, _) = TreeWalk::start("u", "pkg", "dest");
    walk.step(MirrorEvent::DirectoryCreated);
    let action = walk.step(MirrorEvent::Listed { entries: vec![] });
    assert_eq!(action, MirrorAction::Finish { total_bytes: 0 });
    let again = walk.step(MirrorEvent::Failed { error: InstallError::NotFound });
    assert_eq!(again, MirrorAction::Finish { total_bytes: 0 });
    assert_eq!(walk.failure(), None);
}

#[test]
fn unexpected_event_is_a_protocol_error() {
    let (mut walk, first) = TreeWalk::start("u", "pkg", "dest");
    assert_eq!(first, MirrorAction::CreateDirectory { local_path: "dest".to_string() });
    let action = walk.step(MirrorEvent::Listed { entries: vec![] });
    assert_eq!(action, MirrorAction::Abort { error: InstallError::ProtocolError });

    let (mut walk, _) = TreeWalk::start("u", "pkg", "dest");
    let action = walk.step(MirrorEvent::DirectoryCreated);
    assert_eq!(
        action,
        MirrorAction::ListDirectory { author: "u".to_string(), remote_path: "pkg".to_string() }
    );
    let action = walk.step(MirrorEvent::FileWritten { bytes: 1 });
    assert_eq!(action, MirrorAction::Abort { error: InstallError::ProtocolError });
}

#[test]
fn byte_count_must_fit() {
    let (mut walk, _) = TreeWalk::start("u", "pkg", "dest");
    walk.step(MirrorEvent::DirectoryCreated);
    let entries = vec![file("a", "pkg/a", Some("ua")), file("b", "pkg/b", Some("ub"))];
    walk.step(MirrorEvent::Listed { entries });
    let huge = MirrorEvent::FileWritten { bytes: u64::MAX };
    assert!(walk.accepts(&huge));
    walk.step(huge);
    assert_eq!(walk.total_bytes(), u64::MAX);
    assert!(!walk.accepts(&MirrorEvent::FileWritten { bytes: 1 }));
    assert!(walk.accepts(&MirrorEvent::FileWritten { bytes: 0 }));
    assert!(walk.accepts(&MirrorEvent::DirectoryCreated));
}
