use robe::registry::{Registry, TargetMetadata, TargetRegistry};

#[test]
fn test_target_registry_new() {
    let meta = TargetMetadata::create("/real/path".to_string());

    let tr = TargetRegistry::new(
        "tmux",
        &meta,
        &vec!["work".to_string(), "clean".to_string()],
    );

    assert_eq!(tr.name, "tmux");
    assert_eq!(tr.real_path, "/real/path");
    assert_eq!(tr.profiles.len(), 2);
    assert!(tr.profiles.contains(&"work".to_string()));
    assert!(tr.profiles.contains(&"clean".to_string()));
}

#[test]
fn test_assert_profile_exists_ok() {
    let tr = TargetRegistry {
        name: "tmux".to_string(),
        real_path: "/tmp".to_string(),
        profiles: vec!["work".to_string(), "clean".to_string()],
        last_activated_profile: None,
    };

    assert!(tr.assert_profile_exists("work").is_ok());
}

#[test]
fn test_assert_profile_exists_error() {
    let tr = TargetRegistry {
        name: "tmux".to_string(),
        real_path: "/tmp".to_string(),
        profiles: vec!["work".to_string()],
        last_activated_profile: None,
    };

    let err = tr.assert_profile_exists("missing").unwrap_err();
    let msg = err.render();

    assert!(msg.contains("Profile tmux/missing not found"));
}

#[test]
fn test_target_metadata_create() {
    let meta = TargetMetadata::create("/some/tracked/dir".to_string());

    assert!(meta.real_path().contains("/some/tracked/dir"));
}

#[test]
fn test_registry_get_target() {
    let tr = TargetRegistry {
        name: "tmux".to_string(),
        real_path: "/tmp".to_string(),
        profiles: vec!["work".to_string()],
        last_activated_profile: None,
    };

    let reg = Registry {
        base_path: String::new(),
        targets: vec![tr],
    };

    let result = reg.get_target_registry("tmux");
    assert!(result.is_some());
}

#[test]
fn test_registry_duplicate_names_first_wins() {
    let first = TargetRegistry {
        name: "tmux".to_string(),
        real_path: "/first".to_string(),
        profiles: vec![],
        last_activated_profile: None,
    };
    let second = TargetRegistry {
        name: "tmux".to_string(),
        real_path: "/second".to_string(),
        profiles: vec![],
        last_activated_profile: None,
    };

    let reg = Registry {
        base_path: String::new(),
        targets: vec![first, second],
    };

    let found = reg.get_target_registry("tmux").unwrap();
    assert_eq!(found.real_path, "/first");
}

#[test]
fn test_registry_target_registry_error() {
    let reg = Registry {
        base_path: String::new(),
        targets: Vec::new(),
    };

    let err = reg.target_registry("missing").unwrap_err();
    let msg = err.render();

    assert!(msg.contains("Target missing not found"));
}
