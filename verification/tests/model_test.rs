//! Model-level behavior: the relative-path model, the extraction
//! engine's traversal protection and stripping arithmetic, the options
//! builder, and mode normalization.

use decompress::entry::normalize_mode;
use decompress::{
    extract_entries, Action, ArchiveEntry, DecompressError, DefaultHooks, EntryKind, ExtractOpts,
    ExtractOptsBuilder, MapArgs, RelPath, RelPathKind,
};

fn entry(path: &str, kind: EntryKind, data: &[u8]) -> ArchiveEntry {
    ArchiveEntry {
        path: path.to_string(),
        kind,
        mode: Some(0o644),
        link: String::new(),
        data: data.to_vec(),
    }
}

fn action_path(action: &Action) -> String {
    match action {
        Action::WriteFile { path, .. } => path.clone(),
        Action::WriteSymlink { path, .. } => path.clone(),
    }
}

#[test]
fn rel_path_guesses_kind() {
    assert_eq!(RelPath::new_guess_kind("aaa\\bbb").unwrap().kind(), RelPathKind::File);
    assert_eq!(RelPath::new_guess_kind("aaa\\bbb\\").unwrap().kind(), RelPathKind::Directory);
    assert_eq!(RelPath::new_guess_kind("aaa/bbb").unwrap().kind(), RelPathKind::File);
    assert_eq!(RelPath::new_guess_kind("aaa/bbb/").unwrap().kind(), RelPathKind::Directory);
}

#[test]
fn rel_path_splits_and_joins() {
    let rp = RelPath::new_file("aaa\\bbb/ccc").unwrap();
    assert!(rp.is_file());
    assert!(!rp.is_directory());
    assert_eq!(rp.as_str(), "aaa/bbb/ccc");
    assert_eq!(rp.parts(), &vec!["aaa".to_string(), "bbb".to_string(), "ccc".to_string()]);
    assert_eq!(rp.join_onto("/root"), "/root/aaa/bbb/ccc");
    assert_eq!(rp.join_onto("/root/"), "/root/aaa/bbb/ccc");

    let dir = RelPath::new_directory("aaa/bbb/").unwrap();
    assert!(dir.is_directory());
    assert_eq!(dir.kind(), RelPathKind::Directory);
    assert_eq!(dir.as_str(), "aaa/bbb");
}

#[test]
fn rel_path_rejects_unsafe_input() {
    assert!(matches!(
        RelPath::new_file("/etc/passwd"),
        Err(DecompressError::PathNotRelative(_))
    ));
    assert!(matches!(
        RelPath::new_file("a/../b"),
        Err(DecompressError::PathNotRelative(_))
    ));
    assert!(matches!(
        RelPath::new_file("./a"),
        Err(DecompressError::PathNotRelative(_))
    ));
    assert!(matches!(
        RelPath::new_file("C:\\evil"),
        Err(DecompressError::PathNotRelative(_))
    ));
    assert!(matches!(
        RelPath::new_file("\\\\share\\x"),
        Err(DecompressError::PathNotRelative(_))
    ));
}

#[test]
fn map_args_carries_descriptor() {
    let rp = RelPath::new_file("a/b.txt").unwrap();
    let args = MapArgs::new(&rp, "/out/a/b.txt", "/out");
    assert_eq!(args.path(), "/out/a/b.txt");
    assert_eq!(args.output_dir(), "/out");
    assert_eq!(args.rel_path().as_str(), "a/b.txt");
}

#[test]
fn engine_rejects_traversal_attempts() {
    for bad in ["../evil.txt", "/abs.txt", "a/../../b", "..", "C:/evil"] {
        let es = vec![entry(bad, EntryKind::Regular, b"x")];
        let res = extract_entries(&DefaultHooks, es, "/tmp/adv", 0);
        match res {
            Err(DecompressError::PathNotRelative(p)) => assert_eq!(p, bad),
            other => panic!("expected rejection of {bad:?}, got {other:?}"),
        }
    }
}

#[test]
fn engine_accepts_mixed_separators() {
    let es = vec![entry("dir\\sub/file.txt", EntryKind::Regular, b"x")];
    let acts = extract_entries(&DefaultHooks, es, "/tmp/adv2", 0).unwrap();
    assert_eq!(acts.len(), 1);
    assert_eq!(action_path(&acts[0]), "/tmp/adv2/dir/sub/file.txt");
}

#[test]
fn engine_strips_exact_segment_counts() {
    // an entry with exactly `strip` segments is dropped, not written as
    // the output root
    let es = vec![
        entry("root/", EntryKind::Directory, b""),
        entry("root/a.txt", EntryKind::Regular, b"hi"),
    ];
    let acts = extract_entries(&DefaultHooks, es, "/tmp/strip1", 1).unwrap();
    assert_eq!(acts.len(), 1);
    assert_eq!(action_path(&acts[0]), "/tmp/strip1/a.txt");

    let es = vec![entry("only", EntryKind::Regular, b"hi")];
    let acts = extract_entries(&DefaultHooks, es, "/tmp/strip2", 1).unwrap();
    assert!(acts.is_empty());
}

#[test]
fn engine_writes_symlinks_verbatim() {
    let mut link = entry("root/link", EntryKind::Symlink, b"");
    link.link = "../a.txt".to_string();
    let es = vec![link];
    let acts = extract_entries(&DefaultHooks, es, "/tmp/lnk", 0).unwrap();
    match &acts[0] {
        Action::WriteSymlink { path, target } => {
            assert_eq!(path, "/tmp/lnk/root/link");
            assert_eq!(target, "../a.txt");
        }
        other => panic!("expected a symlink action, got {other:?}"),
    }
}

#[test]
fn engine_refuses_directory_entry_kinds_it_cannot_write() {
    let es = vec![entry("root/dev", EntryKind::Other, b"")];
    let res = extract_entries(&DefaultHooks, es, "/tmp/oth", 0);
    assert!(matches!(res, Err(DecompressError::UnsupportedEntryType(_))));
}

#[test]
fn tar_walk_lists_and_extracts() {
    let mut builder = tar::Builder::new(Vec::new());
    let mut h = tar::Header::new_gnu();
    h.set_size(2);
    h.set_mode(0o755);
    h.set_cksum();
    builder.append_data(&mut h, "bin/run.sh", "hi".as_bytes()).unwrap();
    let data = builder.into_inner().unwrap();

    let names = decompress::tar_common::tar_list(&data).unwrap();
    assert_eq!(names, vec!["bin/run.sh".to_string()]);

    let opts = ExtractOptsBuilder::default().build().unwrap();
    let acts =
        decompress::tar_common::tar_extract(&data, "/tmp/walk", &opts, &DefaultHooks).unwrap();
    match &acts[0] {
        Action::WriteFile { path, mode, data } => {
            assert_eq!(path, "/tmp/walk/bin/run.sh");
            // the executable bit survives normalization
            assert_eq!(*mode, Some(0o755));
            assert_eq!(data, b"hi");
        }
        other => panic!("expected a file write, got {other:?}"),
    }
}

#[test]
fn opts_builder_defaults_and_setters() {
    let opts: ExtractOpts = ExtractOptsBuilder::default().build().unwrap();
    assert_eq!(opts.strip, 0);
    assert!(!opts.detect_content);

    let opts = ExtractOptsBuilder::default()
        .strip(2)
        .detect_content(true)
        .build()
        .unwrap();
    assert_eq!(opts.strip, 2);
    assert!(opts.detect_content);
}

#[test]
fn mode_normalization_has_floors() {
    assert_eq!(normalize_mode(0o777), 0o755);
    assert_eq!(normalize_mode(0o100), 0o755);
    assert_eq!(normalize_mode(0o644), 0o644);
    assert_eq!(normalize_mode(0o000), 0o644);
    assert_eq!(normalize_mode(0o400), 0o644);
}
