use include_dir::{Dir, DirEntry, File, FsOp, Identity, Lz4, Metadata, Zstd};

fn sample_tree() -> Dir<Identity> {
    let b = File::new(String::from("a/b.txt"), b"hi".to_vec());
    let a = Dir::new(String::from("a"), vec![DirEntry::File(b)]);
    let top = File::new(String::from("top.bin"), vec![0u8, 159, 146, 150]);
    Dir::new(String::from(""), vec![DirEntry::Dir(a), DirEntry::File(top)])
}

#[test]
fn contents_identity_returns_stored_bytes() {
    let f = File::<Identity>::new(String::from("x"), b"hello".to_vec());
    assert_eq!(f.contents().unwrap(), b"hello");
}

#[test]
fn contents_is_idempotent() {
    let f = File::<Identity>::new(String::from("x"), b"same bytes".to_vec());
    let first: Vec<u8> = f.contents().unwrap().to_vec();
    let second: Vec<u8> = f.contents().unwrap().to_vec();
    assert_eq!(first, second);
}

#[test]
fn contents_idempotent_with_compression() {
    let stored = Lz4::compress(b"repetition repetition repetition");
    let f = File::<Lz4>::new(String::from("x"), stored);
    let first: Vec<u8> = f.contents().unwrap().to_vec();
    let second: Vec<u8> = f.contents().unwrap().to_vec();
    assert_eq!(first, b"repetition repetition repetition");
    assert_eq!(first, second);
}

#[test]
fn zstd_round_trip() {
    let data = b"the quick brown fox jumps over the lazy dog, twice over";
    let stored = Zstd::compress(data, 0).unwrap();
    assert_ne!(stored, data.to_vec());
    let f = File::<Zstd>::new(String::from("z"), stored);
    assert_eq!(f.contents().unwrap(), &data[..]);
}

#[test]
fn lz4_round_trip() {
    let data = b"aaaaaaaaaaaaaaaaaaaaaaaaaaaaaaaaaaaaaaaaaaaa";
    let stored = Lz4::compress(data);
    assert_ne!(stored, data.to_vec());
    let f = File::<Lz4>::new(String::from("l"), stored);
    assert_eq!(f.contents().unwrap(), &data[..]);
}

#[test]
fn zstd_round_trip_empty() {
    let stored = Zstd::compress(b"", 0).unwrap();
    let f = File::<Zstd>::new(String::from("z"), stored);
    assert_eq!(f.contents().unwrap(), b"");
}

#[test]
fn corrupt_zstd_contents_absent() {
    let f = File::<Zstd>::new(String::from("bad"), vec![1u8, 2, 3]);
    assert!(f.contents().is_none());
    assert!(f.contents_utf8().is_none());
}

#[test]
fn corrupt_lz4_contents_absent() {
    // A malformed block: the duplicate section points before the output.
    let f = File::<Lz4>::new(String::from("bad"), vec![0x10, b'a', 2, 0]);
    assert!(f.contents().is_none());
}

#[test]
fn contents_utf8_present_on_text() {
    let f = File::<Identity>::new(String::from("x"), "héllo wörld".as_bytes().to_vec());
    let s = f.contents_utf8().unwrap();
    assert_eq!(s, "héllo wörld");
    assert_eq!(s.as_bytes(), f.contents().unwrap());
}

#[test]
fn contents_utf8_absent_on_binary() {
    let f = File::<Identity>::new(String::from("x"), vec![0xffu8, 0xfe, 0x00]);
    assert!(f.contents().is_some());
    assert!(f.contents_utf8().is_none());
}

#[test]
fn contents_utf8_through_compression() {
    let stored = Lz4::compress("unicode: déjà vu".as_bytes());
    let f = File::<Lz4>::new(String::from("x"), stored);
    assert_eq!(f.contents_utf8().unwrap(), "unicode: déjà vu");
}

#[test]
fn metadata_roundtrip() {
    let m = Metadata::new(10, 20, 30);
    assert_eq!(m.accessed(), 10);
    assert_eq!(m.created(), 20);
    assert_eq!(m.modified(), 30);
    let f = File::<Identity>::new(String::from("x"), vec![]);
    assert!(f.metadata().is_none());
    let f = f.with_metadata(m);
    let got = f.metadata().unwrap();
    assert_eq!(got.accessed(), 10);
    assert_eq!(got.created(), 20);
    assert_eq!(got.modified(), 30);
    assert_eq!(f.path(), "x");
    assert_eq!(f.contents().unwrap(), b"");
}

#[test]
fn get_entry_finds_every_stored_path() {
    let root = sample_tree();
    for p in ["a", "a/b.txt", "top.bin"] {
        let e = root.get_entry(p).unwrap();
        assert_eq!(e.path(), p);
        assert!(root.contains(p));
    }
}

#[test]
fn get_entry_misses_absent_paths() {
    let root = sample_tree();
    for p in ["", "b.txt", "a/", "a/b", "a/b.txt/", "A", "top", "a/c.txt"] {
        assert!(root.get_entry(p).is_none());
        assert!(!root.contains(p));
    }
}

#[test]
fn get_file_and_get_dir_narrow_by_kind() {
    let root = sample_tree();
    assert!(root.get_file("a/b.txt").is_some());
    assert!(root.get_dir("a/b.txt").is_none());
    assert!(root.get_dir("a").is_some());
    assert!(root.get_file("a").is_none());
    assert!(root.get_file("missing").is_none());
    assert!(root.get_dir("missing").is_none());
    assert_eq!(root.get_file("a/b.txt").unwrap().contents().unwrap(), b"hi");
    assert_eq!(root.get_dir("a").unwrap().path(), "a");
}

#[test]
fn entries_files_dirs_keep_stored_order() {
    let root = sample_tree();
    let entries = root.entries();
    assert_eq!(entries.len(), 2);
    assert_eq!(entries[0].path(), "a");
    assert_eq!(entries[1].path(), "top.bin");
    let files = root.files();
    assert_eq!(files.len(), 1);
    assert_eq!(files[0].path(), "top.bin");
    let dirs = root.dirs();
    assert_eq!(dirs.len(), 1);
    assert_eq!(dirs[0].path(), "a");
}

#[test]
fn entry_narrowing_and_children() {
    let root = sample_tree();
    let dir_entry = root.get_entry("a").unwrap();
    assert!(dir_entry.as_dir().is_some());
    assert!(dir_entry.as_file().is_none());
    assert_eq!(dir_entry.children().len(), 1);
    assert_eq!(dir_entry.children()[0].path(), "a/b.txt");
    let file_entry = root.get_entry("a/b.txt").unwrap();
    assert!(file_entry.as_file().is_some());
    assert!(file_entry.as_dir().is_none());
    assert_eq!(file_entry.children().len(), 0);
}

#[test]
fn extract_plan_of_sample_subtree() {
    let b = File::<Identity>::new(String::from("a/b.txt"), b"hi".to_vec());
    let a = Dir::new(String::from("a"), vec![DirEntry::File(b)]);
    let root = Dir::new(String::from(""), vec![DirEntry::Dir(a)]);
    let ops = root.extract_plan().unwrap();
    assert_eq!(ops.len(), 2);
    match &ops[0] {
        FsOp::MakeDir { path } => assert_eq!(path, "a"),
        FsOp::WriteFile { .. } => panic!("first action must create the directory"),
    }
    match &ops[1] {
        FsOp::WriteFile { path, contents } => {
            assert_eq!(path, "a/b.txt");
            assert_eq!(contents, b"hi");
        }
        FsOp::MakeDir { .. } => panic!("second action must write the file"),
    }
}

#[test]
fn extract_plan_decodes_compressed_files() {
    let stored = Zstd::compress(b"payload", 0).unwrap();
    let f = File::<Zstd>::new(String::from("data.bin"), stored);
    let root = Dir::new(String::from(""), vec![DirEntry::File(f)]);
    let ops = root.extract_plan().unwrap();
    match &ops[0] {
        FsOp::WriteFile { path, contents } => {
            assert_eq!(path, "data.bin");
            assert_eq!(contents, b"payload");
        }
        FsOp::MakeDir { .. } => panic!("a lone file extracts as one write"),
    }
}

#[test]
fn extract_plan_fails_on_corrupt_file() {
    let good = File::<Zstd>::new(String::from("good"), Zstd::compress(b"x", 0).unwrap());
    let bad = File::<Zstd>::new(String::from("bad"), vec![9u8, 9, 9]);
    let root = Dir::new(
        String::from(""),
        vec![DirEntry::File(good), DirEntry::File(bad)],
    );
    assert!(root.extract_plan().is_none());
}

#[test]
fn empty_dir_has_empty_plan_and_no_entries() {
    let root = Dir::<Identity>::new(String::from(""), vec![]);
    assert_eq!(root.entries().len(), 0);
    assert!(root.files().is_empty());
    assert!(root.dirs().is_empty());
    assert!(root.get_entry("anything").is_none());
    assert!(root.extract_plan().unwrap().is_empty());
}

#[test]
fn lookup_is_depth_first_in_stored_order() {
    let deep = File::<Identity>::new(String::from("outer/inner/leaf.txt"), b"deep".to_vec());
    let inner = Dir::new(String::from("outer/inner"), vec![DirEntry::File(deep)]);
    let outer = Dir::new(String::from("outer"), vec![DirEntry::Dir(inner)]);
    let sibling = File::<Identity>::new(String::from("sibling.txt"), b"flat".to_vec());
    let root = Dir::new(
        String::from(""),
        vec![DirEntry::Dir(outer), DirEntry::File(sibling)],
    );
    let e = root.get_entry("outer/inner/leaf.txt").unwrap();
    assert_eq!(e.path(), "outer/inner/leaf.txt");
    assert_eq!(e.as_file().unwrap().contents().unwrap(), b"deep");
    assert!(root.contains("outer/inner"));
    assert!(root.contains("sibling.txt"));
}
