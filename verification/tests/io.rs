use robe::dispatch::io::{clean_directory, copy_file, replace_dir_all, replace_file_or_dir};
use robe::fstree::{FsEntry, FsTree};
use robe::hashing::are_paths_equal;
use robe::registry::{Registry, TargetMetadata, TargetRegistry};
use robe::storage::{delete_profile, delete_target, has_target, store_metadata, Storage, StoreProfile, StoreTarget};

fn file(content: &[u8]) -> FsTree {
    FsTree::File(content.to_vec())
}

fn dir(entries: Vec<(&str, FsTree)>) -> FsTree {
    FsTree::Dir(
        entries
            .into_iter()
            .map(|(name, node)| FsEntry {
                name: name.to_string(),
                node,
            })
            .collect(),
    )
}

fn child<'a>(t: &'a FsTree, name: &str) -> Option<&'a FsTree> {
    match t {
        FsTree::Dir(entries) => entries.iter().find(|e| e.name == name).map(|e| &e.node),
        _ => None,
    }
}

fn text(t: &FsTree) -> String {
    match t {
        FsTree::File(bytes) => String::from_utf8(bytes.clone()).unwrap(),
        _ => panic!("not a file"),
    }
}

#[test]
fn test_copy_file() {
    let src = file(b"hello");
    let mut dst = FsTree::Link;

    copy_file(&src, &mut dst).unwrap();

    assert_eq!(text(&dst), "hello");
}

#[test]
fn test_copy_dir_all() {
    let src = dir(vec![
        ("f1.txt", file(b"file1")),
        ("sub", dir(vec![("f2.txt", file(b"file2"))])),
    ]);
    let mut dst = FsTree::Link;

    replace_dir_all(&src, &mut dst).unwrap();

    assert!(child(&dst, "f1.txt").is_some());
    assert_eq!(text(child(&dst, "f1.txt").unwrap()), "file1");
    let sub = child(&dst, "sub").unwrap();
    assert!(child(sub, "f2.txt").is_some());
    assert_eq!(text(child(sub, "f2.txt").unwrap()), "file2");
}

#[test]
fn test_replace_file_or_dir_file() {
    let src = file(b"hi");
    let mut dst = file(b"old");

    replace_file_or_dir(&src, &mut dst).unwrap();

    assert_eq!(text(&dst), "hi");
}

#[test]
fn test_replace_file_or_dir_dir() {
    let src = dir(vec![("sub", dir(vec![("f.txt", file(b"hi"))]))]);
    let mut dst = FsTree::Link;

    replace_file_or_dir(&src, &mut dst).unwrap();

    let sub = child(&dst, "sub").unwrap();
    assert!(child(sub, "f.txt").is_some());
    assert_eq!(text(child(sub, "f.txt").unwrap()), "hi");
}

#[test]
fn test_replace_file_or_dir_dir_should_delete_old_files() {
    let src = dir(vec![("sub", dir(vec![("f1.txt", file(b"hi 2"))]))]);
    let mut dst = dir(vec![(
        "sub",
        dir(vec![
            ("f1.txt", file(b"hi")),
            ("f2.txt", file(b"hi")),
            ("f3.txt", file(b"hi")),
        ]),
    )]);

    replace_file_or_dir(&src, &mut dst).unwrap();

    let sub = child(&dst, "sub").unwrap();
    assert!(child(sub, "f1.txt").is_some());
    assert!(child(sub, "f2.txt").is_none());
    assert!(child(sub, "f3.txt").is_none());
    assert_eq!(text(child(sub, "f1.txt").unwrap()), "hi 2");
    assert_eq!(text(child(child(&src, "sub").unwrap(), "f1.txt").unwrap()), "hi 2");
}

#[test]
fn test_replace_rejects_symlink_source() {
    let mut dst = file(b"untouched");

    let err = replace_file_or_dir(&FsTree::Link, &mut dst).unwrap_err();

    assert!(err.render().contains("Robe does not allow symlinks."));
    assert_eq!(text(&dst), "untouched");
}

#[test]
fn test_replace_makes_trees_equal() {
    // After a mirror, source and destination compare equal, and an entry
    // only the old destination had is gone.
    let src = dir(vec![
        ("a.txt", file(b"alpha")),
        ("sub", dir(vec![("b.txt", file(b"beta"))])),
    ]);
    let mut dst = dir(vec![("stale.txt", file(b"old"))]);

    replace_file_or_dir(&src, &mut dst).unwrap();

    assert!(are_paths_equal(&src, &dst));
    assert!(child(&dst, "stale.txt").is_none());
}

#[test]
fn test_clean_dir() {
    let mut src = dir(vec![
        ("f1.txt", file(b"mock")),
        (
            "sub1",
            dir(vec![("f1.txt", file(b"mock")), ("f2.txt", file(b"mock"))]),
        ),
        (
            "sub2",
            dir(vec![
                ("f1.txt", file(b"mock")),
                ("f2.txt", file(b"mock")),
                ("f3.txt", file(b"mock")),
                ("f4.txt", file(b"mock")),
            ]),
        ),
    ]);

    clean_directory(&mut src).unwrap();

    match &src {
        FsTree::Dir(entries) => assert!(entries.len() == 0),
        _ => panic!("expected a directory"),
    }
}

fn storage_with_profile(target: &str, profile: &str, data: FsTree) -> Storage {
    Storage {
        targets: vec![StoreTarget {
            name: target.to_string(),
            meta: TargetMetadata::create("/fake/real".to_string()),
            profiles: vec![StoreProfile {
                name: profile.to_string(),
                data,
            }],
        }],
    }
}

#[test]
fn test_delete_profile_file() {
    let target_name = "target";
    let profile_name = "profile";
    let mut storage = storage_with_profile(target_name, profile_name, file(b"x"));

    let target_registry = TargetRegistry {
        name: target_name.into(),
        real_path: "_".to_string(),
        profiles: vec![profile_name.to_string()],
        last_activated_profile: None,
    };

    let _registry = Registry {
        base_path: String::new(),
        targets: vec![target_registry.clone()],
    };

    delete_profile(&mut storage, &target_registry, profile_name).unwrap();

    assert!(robe::storage::profile_data(&storage, target_name, profile_name).is_none());
}

#[test]
fn test_delete_target() {
    let mut storage = storage_with_profile("target", "p", file(b"x"));

    delete_target("target", &mut storage).unwrap();

    assert!(!has_target(&storage, "target"));
}

#[test]
fn test_delete_missing_target_fails() {
    let mut storage = Storage { targets: Vec::new() };

    assert!(delete_target("target", &mut storage).is_err());
}

#[test]
fn test_store_metadata() {
    let mut storage = Storage { targets: Vec::new() };

    let meta = TargetMetadata::create("/tracked/real_path".to_string());

    store_metadata(&mut storage, &meta, "target_name").unwrap();

    assert!(has_target(&storage, "target_name"));
    assert_eq!(storage.targets[0].name, "target_name");
    assert_eq!(storage.targets[0].meta.real_path(), "/tracked/real_path");
    assert!(storage.targets[0].profiles.is_empty());
}
