use robe::dispatch::list::{format_profiles, format_targets, list};
use robe::dispatch::status::TargetStatus;
use robe::dispatch::view::{format_dir, format_dir_raw, format_file};
use robe::domain::List;
use robe::fstree::{FsEntry, FsTree};
use robe::help::{help_text, help_with_storage_and_config};
use robe::registry::{Registry, TargetRegistry};
use robe::settings::Settings;

fn dir_entries(entries: Vec<(&str, FsTree)>) -> Vec<FsEntry> {
    entries
        .into_iter()
        .map(|(name, node)| FsEntry {
            name: name.to_string(),
            node,
        })
        .collect()
}

#[test]
fn test_format_targets() {
    let targets = vec!["t1".to_string(), "t2".to_string(), "t3".to_string()];

    let result = format_targets(&targets);

    assert!(result.contains("t1"));
    assert!(result.contains("t2"));
    assert!(result.contains("t3"));
    assert!(result.contains("Registered targets"));
}

#[test]
fn test_format_profiles() {
    let targets: Vec<String> = vec!["work".to_string(), "minimal".to_string()];

    let result = format_profiles("tmux", &targets);

    assert!(result.contains("work"));
    assert!(result.contains("minimal"));
    assert!(result.contains("Robes for tmux"));
}

fn registry_for_list() -> Registry {
    Registry {
        base_path: "/wardrobe".to_string(),
        targets: vec![
            TargetRegistry {
                name: "tmux".to_string(),
                real_path: "/fake/tmux".to_string(),
                profiles: vec!["work".to_string(), "clean".to_string()],
                last_activated_profile: None,
            },
            TargetRegistry {
                name: "nvim".to_string(),
                real_path: "/fake/nvim".to_string(),
                profiles: vec!["minimal".to_string()],
                last_activated_profile: None,
            },
        ],
    }
}

#[test]
fn test_list_all_targets() {
    let registry = registry_for_list();

    let cmd = List { target: None };

    let result = list(&cmd, &registry);
    assert!(result.is_ok());
}

#[test]
fn test_list_profiles_for_target() {
    let registry = registry_for_list();

    let cmd = List {
        target: Some("tmux".to_string()),
    };

    let result = list(&cmd, &registry);
    assert!(result.is_ok());
}

#[test]
fn test_list_unknown_target_fails() {
    let registry = registry_for_list();

    let cmd = List {
        target: Some("ghost".to_string()),
    };

    let result = list(&cmd, &registry);
    assert!(result.unwrap_err().render().contains("Target ghost not found"));
}

#[test]
fn test_format_file_pretty() {
    let output = format_file("/tmp/test.txt", "hello world", false);

    assert!(output.contains("File:"));
    assert!(output.contains("hello world"));
    assert!(output.contains("Path:"));
}

#[test]
fn test_format_file_raw() {
    let output = format_file("/tmp/test.txt", "hello", true);

    assert_eq!(output, "hello");
}

#[test]
fn test_format_dir_raw_orders_dirs_first() {
    let entries = dir_entries(vec![
        ("b_dir", FsTree::Dir(Vec::new())),
        ("a_dir", FsTree::Dir(Vec::new())),
        ("z.txt", FsTree::File(b"z".to_vec())),
        ("a.txt", FsTree::File(b"a".to_vec())),
    ]);

    let output = format_dir_raw(&entries);

    let expected = "\
a_dir/
b_dir/
a.txt
z.txt
";

    assert_eq!(output, expected);
}

#[test]
fn test_format_dir_pretty() {
    let entries = dir_entries(vec![
        ("folder", FsTree::Dir(Vec::new())),
        ("file.txt", FsTree::File(b"x".to_vec())),
    ]);

    let output = format_dir("/tmp/base", &entries, false);

    assert!(output.contains("Directory:"));
    assert!(output.contains("folder/"));
    assert!(output.contains("file.txt"));
    assert!(output.contains("Path:"));
}

#[test]
fn test_format_dir_raw_flag() {
    let entries = dir_entries(vec![("folder", FsTree::Dir(Vec::new()))]);

    let output = format_dir("/tmp/base", &entries, true);

    assert_eq!(output, "folder/\n");
}

#[test]
fn test_help_with_storage_and_config() {
    let s_file = "storage/file/path";
    let c_file = "config/file/path";

    let result = help_with_storage_and_config(s_file, c_file);

    assert!(result.contains(help_text()));
    assert!(result.contains(c_file));
    assert!(result.contains(s_file));
}

#[test]
fn test_default_settings() {
    let s = Settings::default();

    assert!(!s.wardrobe.is_empty());
    assert!(s.wardrobe.contains("robe"));
}

#[test]
fn test_default_data_location_contains_robe() {
    let path = robe::settings::default_data_location();
    assert!(path.contains("robe"));
}

#[test]
fn test_settings_file_path_contains_expected_suffix() {
    let path = robe::utils::settings_file_path();
    assert!(path.ends_with("robe/config.toml"));
}

#[test]
fn test_status_format_clean() {
    let status = TargetStatus {
        name: "tmux".to_string(),
        last_activated_profile: Some("work".to_string()),
        modified: false,
    };

    assert_eq!(status.format(6), "tmux   \u{2192} work");
}

#[test]
fn test_status_format_modified() {
    let status = TargetStatus {
        name: "tmux".to_string(),
        last_activated_profile: Some("work".to_string()),
        modified: true,
    };

    assert_eq!(status.format(4), "tmux \u{2192} work * modified");
}

#[test]
fn test_status_format_no_profile() {
    let status = TargetStatus {
        name: "nvim".to_string(),
        last_activated_profile: None,
        modified: false,
    };

    assert_eq!(status.format(0), "nvim \u{2192} (none)");
}

#[test]
fn test_full_status_lines() {
    let registry = Registry {
        base_path: "/wardrobe".to_string(),
        targets: vec![
            TargetRegistry {
                name: "tmux".to_string(),
                real_path: "/fake/tmux".to_string(),
                profiles: vec!["work".to_string()],
                last_activated_profile: Some("work".to_string()),
            },
            TargetRegistry {
                name: "nvim".to_string(),
                real_path: "/fake/nvim".to_string(),
                profiles: vec!["minimal".to_string()],
                last_activated_profile: None,
            },
        ],
    };
    let trees = vec![
        Some((
            FsTree::File(b"live".to_vec()),
            FsTree::File(b"stored".to_vec()),
        )),
        None,
    ];

    let out = robe::dispatch::status::full_status(&registry, &trees);

    assert_eq!(out, "nvim \u{2192} (none)\ntmux \u{2192} work * modified");
}

#[test]
fn test_view_target_path_resolution() {
    let registry = registry_for_list();

    let with_profile = robe::dispatch::view::view_target_path(
        &robe::domain::ViewCmd {
            target: "tmux".to_string(),
            profile: Some("work".to_string()),
            raw: false,
        },
        &registry,
    )
    .unwrap();
    assert_eq!(with_profile, "/wardrobe/tmux/work");

    let live = robe::dispatch::view::view_target_path(
        &robe::domain::ViewCmd {
            target: "tmux".to_string(),
            profile: None,
            raw: false,
        },
        &registry,
    )
    .unwrap();
    assert_eq!(live, "/fake/tmux");
}
