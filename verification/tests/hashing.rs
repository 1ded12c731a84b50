use robe::fstree::{FsEntry, FsTree};
use robe::hashing::{are_paths_equal, files_equal};

fn file(content: &[u8]) -> FsTree {
    FsTree::File(content.to_vec())
}

fn dir(entries: Vec<(&str, FsTree)>) -> FsTree {
    FsTree::Dir(
        entries
            .into_iter()
            .map(|(name, node)| FsEntry {
                name: name.to_string(),
                node,
            })
            .collect(),
    )
}

#[test]
fn test_identical_text_files() {
    let dir1 = dir(vec![("file1.txt", file(b"Hello, world!"))]);
    let dir2 = dir(vec![("file1.txt", file(b"Hello, world!"))]);

    assert!(are_paths_equal(&dir1, &dir2));
}

#[test]
fn test_different_text_files() {
    let dir1 = dir(vec![("file1.txt", file(b"Hello"))]);
    let dir2 = dir(vec![("file1.txt", file(b"Goodbye"))]);

    assert!(!are_paths_equal(&dir1, &dir2));
}

#[test]
fn test_identical_binary_files() {
    let data = vec![0u8, 255, 128, 64, 32];
    let dir1 = dir(vec![("binary.bin", FsTree::File(data.clone()))]);
    let dir2 = dir(vec![("binary.bin", FsTree::File(data))]);

    assert!(are_paths_equal(&dir1, &dir2));
}

#[test]
fn test_different_binary_files() {
    let mut data = vec![0u8, 255, 128, 64, 32];
    let dir1 = dir(vec![("binary.bin", FsTree::File(data.clone()))]);
    data[0] = 1;
    let dir2 = dir(vec![("binary.bin", FsTree::File(data))]);

    assert!(!are_paths_equal(&dir1, &dir2));
}

#[test]
fn test_nested_directories_equal() {
    let dir1 = dir(vec![("sub", dir(vec![("nested.txt", file(b"Nested content"))]))]);
    let dir2 = dir(vec![("sub", dir(vec![("nested.txt", file(b"Nested content"))]))]);

    assert!(are_paths_equal(&dir1, &dir2));
}

#[test]
fn test_nested_directories_different() {
    let dir1 = dir(vec![("sub", dir(vec![("nested.txt", file(b"Nested content"))]))]);
    let dir2 = dir(vec![("sub", dir(vec![("nested.txt", file(b"Different content"))]))]);

    assert!(!are_paths_equal(&dir1, &dir2));
}

#[test]
fn test_multiple_files_parallel() {
    let mut entries1 = Vec::new();
    let mut entries2 = Vec::new();
    for i in 0..50 {
        entries1.push((format!("file{}.txt", i), file(b"Some content")));
        entries2.push((format!("file{}.txt", i), file(b"Some content")));
    }
    let dir1 = FsTree::Dir(
        entries1
            .into_iter()
            .map(|(name, node)| FsEntry { name, node })
            .collect(),
    );
    let dir2 = FsTree::Dir(
        entries2
            .into_iter()
            .map(|(name, node)| FsEntry { name, node })
            .collect(),
    );

    assert!(are_paths_equal(&dir1, &dir2));
}

#[test]
fn test_entry_count_mismatch_is_unequal() {
    let dir1 = dir(vec![("a.txt", file(b"x")), ("b.txt", file(b"y"))]);
    let dir2 = dir(vec![("a.txt", file(b"x"))]);

    assert!(!are_paths_equal(&dir1, &dir2));
}

#[test]
fn test_entry_name_mismatch_is_unequal() {
    let dir1 = dir(vec![("a.txt", file(b"x"))]);
    let dir2 = dir(vec![("b.txt", file(b"x"))]);

    assert!(!are_paths_equal(&dir1, &dir2));
}

#[test]
fn test_file_against_directory_is_unequal() {
    let dir1 = dir(vec![("entry", file(b"x"))]);
    let dir2 = dir(vec![("entry", dir(vec![]))]);

    assert!(!are_paths_equal(&dir1, &dir2));
    assert!(!are_paths_equal(&file(b"x"), &dir(vec![])));
}

#[test]
fn test_files_equal_same_length_different_bytes() {
    // Same length, so only the chunk digests can tell them apart.
    assert!(!files_equal(b"aaaa", b"aaab"));
    assert!(files_equal(b"aaaa", b"aaaa"));
}

#[test]
fn test_files_equal_large_multi_chunk() {
    // More than one 8192-byte chunk, equal and then one byte flipped.
    let a = vec![7u8; 20000];
    let mut b = a.clone();
    assert!(files_equal(&a, &b));
    b[19999] = 8;
    assert!(!files_equal(&a, &b));
    let c = vec![7u8; 19999];
    assert!(!files_equal(&a, &c));
}

#[test]
fn test_one_deep_byte_differs() {
    // Identical trees except for a single byte deep inside.
    let mk = |last: u8| {
        dir(vec![
            ("conf", file(b"set -g mouse on")),
            (
                "sub",
                dir(vec![("deep", dir(vec![("leaf.bin", FsTree::File(vec![1, 2, last]))]))]),
            ),
        ])
    };
    assert!(are_paths_equal(&mk(3), &mk(3)));
    assert!(!are_paths_equal(&mk(3), &mk(4)));
}
