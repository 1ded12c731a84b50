use robe::dispatch::add::{add, add_source_path};
use robe::dispatch::register::register;
use robe::dispatch::rm::rm;
use robe::dispatch::usecmd::usecmd;
use robe::domain::{Add, Register, Rm, Use};
use robe::fstree::{FsEntry, FsTree};
use robe::registry::{Registry, TargetMetadata, TargetRegistry};
use robe::storage::{build_registry, profile_data, Storage, StoreProfile, StoreTarget};

fn file(content: &[u8]) -> FsTree {
    FsTree::File(content.to_vec())
}

fn dir(entries: Vec<(&str, FsTree)>) -> FsTree {
    FsTree::Dir(
        entries
            .into_iter()
            .map(|(name, node)| FsEntry {
                name: name.to_string(),
                node,
            })
            .collect(),
    )
}

fn text(t: &FsTree) -> String {
    match t {
        FsTree::File(bytes) => String::from_utf8(bytes.clone()).unwrap(),
        _ => panic!("not a file"),
    }
}

fn registry_with(target: &str, real_path: &str, profiles: &[&str]) -> Registry {
    Registry {
        base_path: "/wardrobe".to_string(),
        targets: vec![TargetRegistry {
            name: target.to_string(),
            real_path: real_path.to_string(),
            profiles: profiles.iter().map(|p| p.to_string()).collect(),
            last_activated_profile: None,
        }],
    }
}

fn storage_with(target: &str, real_path: &str, profiles: Vec<(&str, FsTree)>) -> Storage {
    Storage {
        targets: vec![StoreTarget {
            name: target.to_string(),
            meta: TargetMetadata::create(real_path.to_string()),
            profiles: profiles
                .into_iter()
                .map(|(name, data)| StoreProfile {
                    name: name.to_string(),
                    data,
                })
                .collect(),
        }],
    }
}

#[test]
fn test_add_new_target_with_register() {
    let registry = Registry {
        base_path: "/wardrobe".to_string(),
        targets: Vec::new(),
    };
    let mut storage = Storage { targets: Vec::new() };

    let source = file(b"hello world");

    let cmd = Add {
        target: "tmux".to_string(),
        profile: "work".to_string(),
        to_register: Some("/etc/config.txt".to_string()),
        force: false,
    };

    let path = add_source_path(&cmd, &registry).unwrap();
    assert_eq!(path, "/etc/config.txt");

    add(&cmd, &registry, &mut storage, &source).unwrap();

    assert_eq!(storage.targets.len(), 1);
    assert_eq!(storage.targets[0].name, "tmux");
    assert_eq!(storage.targets[0].meta.real_path(), "/etc/config.txt");

    let stored = profile_data(&storage, "tmux", "work").unwrap();
    assert_eq!(text(stored), "hello world");
}

#[test]
fn test_add_existing_profile_requires_force() {
    let registry = registry_with("tmux", "/tmp/config.txt", &["work"]);
    let mut storage = storage_with("tmux", "/tmp/config.txt", vec![("work", file(b"old"))]);

    let cmd = Add {
        target: "tmux".to_string(),
        profile: "work".to_string(),
        to_register: None,
        force: false,
    };

    let res = add(&cmd, &registry, &mut storage, &file(b"new"));
    assert!(res.is_err());
    assert!(res
        .unwrap_err()
        .render()
        .contains("Profile tmux/work already exists"));
    // Nothing was overwritten.
    assert_eq!(text(profile_data(&storage, "tmux", "work").unwrap()), "old");
}

#[test]
fn test_add_existing_profile_with_force() {
    let registry = registry_with("tmux", "/tmp/config.txt", &["work"]);
    let mut storage = storage_with("tmux", "/tmp/config.txt", vec![("work", file(b"old"))]);

    let cmd = Add {
        target: "tmux".to_string(),
        profile: "work".to_string(),
        to_register: None,
        force: true,
    };

    add(&cmd, &registry, &mut storage, &file(b"hello world")).unwrap();

    assert_eq!(
        text(profile_data(&storage, "tmux", "work").unwrap()),
        "hello world"
    );
}

#[test]
fn test_add_fail_without_register() {
    let registry = Registry {
        base_path: "/wardrobe".to_string(),
        targets: Vec::new(),
    };
    let mut storage = Storage { targets: Vec::new() };

    let cmd = Add {
        target: "tmux".to_string(),
        profile: "work".to_string(),
        to_register: None,
        force: false,
    };

    let res = add(&cmd, &registry, &mut storage, &file(b"x"));
    assert!(res.is_err());
    assert!(res.unwrap_err().render().contains("Target tmux not registered"));
}

#[test]
fn test_reregister_without_force_fails() {
    // An already registered target keeps its path unless force is given.
    let registry = registry_with("tmux", "/old/path", &[]);
    let mut storage = storage_with("tmux", "/old/path", vec![]);

    let cmd = Add {
        target: "tmux".to_string(),
        profile: "work".to_string(),
        to_register: Some("/new/path".to_string()),
        force: false,
    };

    let res = add(&cmd, &registry, &mut storage, &file(b"x"));
    assert!(res.is_err());
    assert!(res.unwrap_err().render().contains("is already registered"));
    assert_eq!(storage.targets[0].meta.real_path(), "/old/path");
}

#[test]
fn test_reregister_with_force_updates_metadata() {
    // With force, the metadata and the rebuilt registry track the new path.
    let registry = registry_with("tmux", "/old/path", &[]);
    let mut storage = storage_with("tmux", "/old/path", vec![]);

    let cmd = Add {
        target: "tmux".to_string(),
        profile: "work".to_string(),
        to_register: Some("/new/path".to_string()),
        force: true,
    };

    add(&cmd, &registry, &mut storage, &file(b"content")).unwrap();

    assert_eq!(storage.targets[0].meta.real_path(), "/new/path");

    let rebuilt = build_registry(&storage, "/wardrobe".to_string());
    let tr = rebuilt.get_target_registry("tmux").unwrap();
    assert_eq!(tr.real_path, "/new/path");
    assert!(tr.profiles.contains(&"work".to_string()));
}

#[test]
fn test_register_new_target() {
    let registry = Registry {
        base_path: "/wardrobe".to_string(),
        targets: Vec::new(),
    };
    let mut storage = Storage { targets: Vec::new() };

    let cmd = Register {
        target: "target".to_string(),
        profile: "profile".to_string(),
        register_file_path: "/tmp/config.txt".to_string(),
    };

    register(&cmd, &registry, &mut storage, &file(b"hello")).unwrap();

    let stored = profile_data(&storage, "target", "profile").unwrap();
    assert_eq!(text(stored), "hello");
    assert_eq!(storage.targets[0].meta.real_path(), "/tmp/config.txt");
}

#[test]
fn test_register_existing_target_fails() {
    let registry = registry_with("target", "/somewhere", &[]);
    let mut storage = storage_with("target", "/somewhere", vec![]);

    let cmd = Register {
        target: "target".to_string(),
        profile: "profile".to_string(),
        register_file_path: "/tmp/file".to_string(),
    };

    let result = register(&cmd, &registry, &mut storage, &file(b"x"));

    assert!(result.is_err());
}

fn rm_fixture() -> (Registry, Storage) {
    (
        registry_with("tmux", "/fake/path", &["work", "home"]),
        storage_with(
            "tmux",
            "/fake/path",
            vec![("work", file(b"a")), ("home", file(b"b"))],
        ),
    )
}

#[test]
fn rm_test_rm_profile() {
    let (registry, mut storage) = rm_fixture();

    let cmd = Rm {
        target: "tmux".to_string(),
        profile: Some("work".to_string()),
    };

    rm(&cmd, &registry, &mut storage).unwrap();

    assert!(profile_data(&storage, "tmux", "work").is_none());
    // the other profile should still exist, untouched
    assert_eq!(text(profile_data(&storage, "tmux", "home").unwrap()), "b");
}

#[test]
fn rm_test_rm_target() {
    let (registry, mut storage) = rm_fixture();

    let cmd = Rm {
        target: "tmux".to_string(),
        profile: None,
    };

    rm(&cmd, &registry, &mut storage).unwrap();

    assert!(!robe::storage::has_target(&storage, "tmux"));
}

#[test]
fn test_rm_missing_profile_fails() {
    let (registry, mut storage) = rm_fixture();

    let cmd = Rm {
        target: "tmux".to_string(),
        profile: Some("does_not_exist".to_string()),
    };

    let result = rm(&cmd, &registry, &mut storage);
    assert!(result.is_err());
    // Nothing else was touched.
    assert_eq!(text(profile_data(&storage, "tmux", "work").unwrap()), "a");
    assert_eq!(text(profile_data(&storage, "tmux", "home").unwrap()), "b");
}

#[test]
fn test_rm_missing_target_fails() {
    let (registry, mut storage) = rm_fixture();

    let cmd = Rm {
        target: "ghost".to_string(),
        profile: None,
    };

    let result = rm(&cmd, &registry, &mut storage);
    assert!(result.is_err());
    assert_eq!(text(profile_data(&storage, "tmux", "work").unwrap()), "a");
    assert_eq!(text(profile_data(&storage, "tmux", "home").unwrap()), "b");
}

#[test]
fn test_usecmd_replaces_file() {
    let registry = registry_with("myconfig", "/tmp/config.txt", &["work"]);
    let storage = storage_with(
        "myconfig",
        "/tmp/config.txt",
        vec![("work", file(b"profile content"))],
    );

    let cmd = Use {
        target: "myconfig".to_string(),
        profile: "work".to_string(),
    };

    let mut real = file(b"original content");

    usecmd(&cmd, &registry, &storage, &mut real).unwrap();

    assert_eq!(text(&real), "profile content");
}

#[test]
fn test_usecmd_unknown_profile_fails() {
    let registry = registry_with("myconfig", "/tmp/config.txt", &["work"]);
    let storage = storage_with("myconfig", "/tmp/config.txt", vec![("work", file(b"p"))]);

    let cmd = Use {
        target: "myconfig".to_string(),
        profile: "missing".to_string(),
    };

    let mut real = file(b"original content");

    let res = usecmd(&cmd, &registry, &storage, &mut real);
    assert!(res.is_err());
    assert!(res.unwrap_err().render().contains("Profile myconfig/missing not found"));
    assert_eq!(text(&real), "original content");
}

#[test]
fn test_add_then_use_round_trip() {
    // The storage starts empty; registering tmux/work snapshots the real
    // file, and after an edit `use` restores the snapshot.
    let registry = Registry {
        base_path: "/wardrobe".to_string(),
        targets: Vec::new(),
    };
    let mut storage = Storage { targets: Vec::new() };

    let cmd = Add {
        target: "tmux".to_string(),
        profile: "work".to_string(),
        to_register: Some("/etc/tmux.conf".to_string()),
        force: false,
    };

    let original = file(b"set -g mouse on");
    add(&cmd, &registry, &mut storage, &original).unwrap();

    assert_eq!(storage.targets[0].meta.real_path(), "/etc/tmux.conf");
    assert_eq!(
        text(profile_data(&storage, "tmux", "work").unwrap()),
        "set -g mouse on"
    );

    // The user edits the real file, then activates the stored profile.
    let mut real = file(b"set -g mouse off");
    let rebuilt = build_registry(&storage, "/wardrobe".to_string());
    let use_cmd = Use {
        target: "tmux".to_string(),
        profile: "work".to_string(),
    };
    usecmd(&use_cmd, &rebuilt, &storage, &mut real).unwrap();

    assert_eq!(text(&real), "set -g mouse on");
}

#[test]
fn test_register_symlink_source_leaves_metadata() {
    // The metadata is written before the profile is copied, so a rejected
    // source leaves the target registered with no profile stored.
    let registry = Registry {
        base_path: "/wardrobe".to_string(),
        targets: Vec::new(),
    };
    let mut storage = Storage { targets: Vec::new() };

    let cmd = Register {
        target: "tmux".to_string(),
        profile: "work".to_string(),
        register_file_path: "/etc/tmux.conf".to_string(),
    };

    let res = register(&cmd, &registry, &mut storage, &FsTree::Link);

    assert!(res.unwrap_err().render().contains("Robe does not allow symlinks."));
    assert!(robe::storage::has_target(&storage, "tmux"));
    assert!(profile_data(&storage, "tmux", "work").is_none());
}

#[test]
fn test_usecmd_stale_registry_entry_fails() {
    // The registry lists a profile whose snapshot is gone from the
    // storage: activating it fails and the real content stays put.
    let registry = registry_with("myconfig", "/tmp/config.txt", &["work"]);
    let storage = storage_with("myconfig", "/tmp/config.txt", vec![]);

    let cmd = Use {
        target: "myconfig".to_string(),
        profile: "work".to_string(),
    };

    let mut real = file(b"original content");

    let res = usecmd(&cmd, &registry, &storage, &mut real);
    assert!(res.is_err());
    assert_eq!(text(&real), "original content");
}

#[test]
fn test_add_directory_source() {
    let registry = Registry {
        base_path: "/wardrobe".to_string(),
        targets: Vec::new(),
    };
    let mut storage = Storage { targets: Vec::new() };

    let cmd = Add {
        target: "nvim".to_string(),
        profile: "minimal".to_string(),
        to_register: Some("/home/u/.config/nvim".to_string()),
        force: false,
    };

    let source = dir(vec![("init.lua", file(b"print('hi')")), ("lua", dir(vec![]))]);
    add(&cmd, &registry, &mut storage, &source).unwrap();

    let stored = profile_data(&storage, "nvim", "minimal").unwrap();
    assert!(robe::hashing::are_paths_equal(&source, stored));
}
