use easyclaw::fsmodel::{copy_dir_recursive, copy_file_if_not_exists, install_binary, FileMap};

fn listing(files: &[(&str, &str, bool)]) -> FileMap {
    let mut fs = FileMap::new();
    for (path, content, executable) in files {
        fs.set(path.as_bytes().to_vec(), content.as_bytes().to_vec(), *executable);
    }
    fs
}

fn content_of(fs: &FileMap, path: &str) -> Option<String> {
    fs.get(&path.as_bytes().to_vec())
        .map(|e| String::from_utf8(e.content.clone()).unwrap())
}

#[test]
fn test_copy_dir_recursive_creates_dst_and_copies_files() {
    let src = listing(&[("file.txt", "hello", false), ("sub/nested.txt", "world", false)]);
    let mut dst = FileMap::new();

    copy_dir_recursive(Some(&src), &mut dst).unwrap();

    assert!(dst.contains_path(&b"file.txt".to_vec()));
    assert_eq!(content_of(&dst, "file.txt").unwrap(), "hello");
    assert!(dst.contains_path(&b"sub/nested.txt".to_vec()));
    assert_eq!(content_of(&dst, "sub/nested.txt").unwrap(), "world");
}

#[test]
fn test_copy_dir_recursive_fails_on_non_dir_source() {
    let mut dst = FileMap::new();
    dst.set(b"data".to_vec(), b"kept".to_vec(), false);

    let result = copy_dir_recursive(None, &mut dst);
    assert!(result.is_err());
    assert!(result.unwrap_err().contains("Source is not a directory"));
    assert_eq!(content_of(&dst, "data").unwrap(), "kept");
}

#[test]
fn test_copy_dir_recursive_overwrites_destination_files() {
    let src = listing(&[("file.txt", "new", false)]);
    let mut dst = listing(&[("file.txt", "old", false), ("other.txt", "stays", false)]);

    copy_dir_recursive(Some(&src), &mut dst).unwrap();

    assert_eq!(content_of(&dst, "file.txt").unwrap(), "new");
    assert_eq!(content_of(&dst, "other.txt").unwrap(), "stays");
}

#[test]
fn test_copy_file_if_not_exists_copies_when_missing() {
    let src = listing(&[("src.txt", "content", false)]);
    let mut dst = FileMap::new();

    let copied =
        copy_file_if_not_exists(&src, &b"src.txt".to_vec(), &mut dst, &b"subdir/dst.txt".to_vec())
            .unwrap();
    assert!(copied);
    assert_eq!(content_of(&dst, "subdir/dst.txt").unwrap(), "content");
}

#[test]
fn test_copy_file_if_not_exists_skips_when_present() {
    let src = listing(&[("src.txt", "new content", false)]);
    let mut dst = listing(&[("dst.txt", "old content", false)]);

    let copied =
        copy_file_if_not_exists(&src, &b"src.txt".to_vec(), &mut dst, &b"dst.txt".to_vec())
            .unwrap();
    assert!(!copied);
    assert_eq!(content_of(&dst, "dst.txt").unwrap(), "old content");
}

#[test]
fn test_copy_file_if_not_exists_fails_without_source() {
    let src = FileMap::new();
    let mut dst = FileMap::new();

    let result =
        copy_file_if_not_exists(&src, &b"a.txt".to_vec(), &mut dst, &b"sub/b.txt".to_vec());
    assert!(result.is_err());
    let err = result.unwrap_err();
    assert_eq!(err, "Failed to copy a.txt -> sub/b.txt: source file is missing");
    assert!(!dst.contains_path(&b"sub/b.txt".to_vec()));
}

#[test]
fn test_install_binary_marks_the_copy_executable() {
    let src = listing(&[("bin/zeroclaw", "elf-bytes", false)]);
    let mut dst = FileMap::new();

    install_binary(&src, &b"bin/zeroclaw".to_vec(), &mut dst, &b"bin/zeroclaw".to_vec()).unwrap();

    let entry = dst.get(&b"bin/zeroclaw".to_vec()).unwrap();
    assert_eq!(entry.content, b"elf-bytes".to_vec());
    assert!(entry.executable);
}

#[test]
fn test_install_binary_into_populated_destination_is_noop() {
    let src = listing(&[("bin/zeroclaw", "new-bytes", false)]);
    let mut dst = listing(&[("bin/zeroclaw", "old-bytes", false)]);

    install_binary(&src, &b"bin/zeroclaw".to_vec(), &mut dst, &b"bin/zeroclaw".to_vec()).unwrap();

    let entry = dst.get(&b"bin/zeroclaw".to_vec()).unwrap();
    assert_eq!(entry.content, b"old-bytes".to_vec());
    assert!(!entry.executable);
}

#[test]
fn test_install_binary_fails_without_source() {
    let src = FileMap::new();
    let mut dst = FileMap::new();

    let result = install_binary(&src, &b"bin/zeroclaw".to_vec(), &mut dst, &b"bin/zeroclaw".to_vec());
    assert!(result.is_err());
    let err = result.unwrap_err();
    assert!(err.contains("Failed to copy"));
    assert!(err.contains("bin/zeroclaw"));
}
