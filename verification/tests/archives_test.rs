//! Registry-level behavior: format selection, custom registries,
//! extraction round trips, listing, filtering, mapping, and the refusal
//! of unsupported entry kinds. Archives are built in memory with the
//! same codec crates the library decodes with.

use decompress::{
    Adapter, AppendMapHooks, Decompress, DecompressError, DefaultHooks, ExtractOptsBuilder,
    Format, Pattern, SuffixFilterHooks,
};

fn tar_fixture() -> Vec<u8> {
    let mut builder = tar::Builder::new(Vec::new());
    let mut h = tar::Header::new_gnu();
    h.set_size(5);
    h.set_mode(0o644);
    h.set_cksum();
    builder
        .append_data(&mut h, "root/a.txt", "hello".as_bytes())
        .unwrap();
    let mut h2 = tar::Header::new_gnu();
    h2.set_size(5);
    h2.set_mode(0o644);
    h2.set_cksum();
    builder
        .append_data(&mut h2, "root/sub/b.txt", "world".as_bytes())
        .unwrap();
    builder.into_inner().unwrap()
}

fn gzip_bytes(data: &[u8]) -> Vec<u8> {
    let mut enc = flate2::write::GzEncoder::new(Vec::new(), flate2::Compression::default());
    std::io::Write::write_all(&mut enc, data).unwrap();
    enc.finish().unwrap()
}

fn file_action_data(action: &decompress::Action) -> (String, Vec<u8>) {
    match action {
        decompress::Action::WriteFile { path, data, .. } => (path.clone(), data.clone()),
        decompress::Action::WriteSymlink { .. } => panic!("expected a file write"),
    }
}

#[test]
fn test_can_decompress() {
    assert!(Decompress::default().can_decompress("foo/bar/baz.tar.gz"));
    assert!(!Decompress::default().can_decompress("foo/bar/baz.tar.foo"));
}

#[test]
fn test_custom() {
    let extract_opts = ExtractOptsBuilder::default().build().unwrap();
    let dec = Decompress::build(vec![Adapter::new(
        Format::Targz,
        Some(Pattern::new(r"(?i)\.tzz$").unwrap()),
    )]);
    let tgz = gzip_bytes(&tar_fixture());

    let res = dec
        .decompress(
            "tar-gz.tzz",
            &tgz,
            "/tmp/decompress-out/custom_tar_gz_tzz",
            &extract_opts,
            &DefaultHooks,
        )
        .unwrap();
    assert_eq!(res.id, "targz");

    // we swapped our decompressor stack, so now tar.gz should not work
    let res = dec.decompress(
        "bare.tar.gz",
        &tgz,
        "/tmp/decompress-out/bar_no_go",
        &extract_opts,
        &DefaultHooks,
    );
    match res {
        Err(DecompressError::MissingCompressor) => {}
        _ => panic!("should have not decompressed"),
    }
}

#[test]
fn test_round_trip_strip_one() {
    let tgz = gzip_bytes(&tar_fixture());
    let opts = ExtractOptsBuilder::default().strip(1).build().unwrap();
    let res = Decompress::default()
        .decompress("inner.tar.gz", &tgz, "/tmp/decompress-out/rt1", &opts, &DefaultHooks)
        .unwrap();
    assert_eq!(res.id, "targz");
    assert_eq!(res.output_dir, "/tmp/decompress-out/rt1");
    assert_eq!(
        res.files,
        vec![
            "/tmp/decompress-out/rt1/a.txt".to_string(),
            "/tmp/decompress-out/rt1/sub/b.txt".to_string(),
        ]
    );
    let (p0, d0) = file_action_data(&res.actions[0]);
    let (p1, d1) = file_action_data(&res.actions[1]);
    assert_eq!(p0, "/tmp/decompress-out/rt1/a.txt");
    assert_eq!(d0, b"hello".to_vec());
    assert_eq!(p1, "/tmp/decompress-out/rt1/sub/b.txt");
    assert_eq!(d1, b"world".to_vec());
}

#[test]
fn test_round_trip_strip_zero() {
    let data = tar_fixture();
    let opts = ExtractOptsBuilder::default().strip(0).build().unwrap();
    let res = Decompress::default()
        .decompress("inner.tar", &data, "/tmp/decompress-out/rt0", &opts, &DefaultHooks)
        .unwrap();
    assert_eq!(res.id, "tarball");
    assert_eq!(
        res.files,
        vec![
            "/tmp/decompress-out/rt0/root/a.txt".to_string(),
            "/tmp/decompress-out/rt0/root/sub/b.txt".to_string(),
        ]
    );
    let (_, d0) = file_action_data(&res.actions[0]);
    let (_, d1) = file_action_data(&res.actions[1]);
    assert_eq!(d0, b"hello".to_vec());
    assert_eq!(d1, b"world".to_vec());
}

#[test]
fn test_listing() {
    let data = tar_fixture();
    let opts = ExtractOptsBuilder::default().detect_content(false).build().unwrap();
    let res = Decompress::default()
        .list("inner.tar", &data, &opts)
        .unwrap();
    assert_eq!(res.id, "tarball");
    assert_eq!(
        res.entries,
        vec!["root/a.txt".to_string(), "root/sub/b.txt".to_string()]
    );

    let tgz = gzip_bytes(&data);
    let res = Decompress::default()
        .list("inner.tar.gz", &tgz, &opts)
        .unwrap();
    assert_eq!(res.id, "targz");
    assert_eq!(
        res.entries,
        vec!["root/a.txt".to_string(), "root/sub/b.txt".to_string()]
    );
}

#[test]
fn test_unsupported_entry() {
    let mut builder = tar::Builder::new(Vec::new());
    let mut h = tar::Header::new_gnu();
    h.set_size(0);
    h.set_mode(0o644);
    h.set_entry_type(tar::EntryType::Fifo);
    h.set_cksum();
    builder.append_data(&mut h, "root/pipe", &[][..]).unwrap();
    let data = builder.into_inner().unwrap();

    let opts = ExtractOptsBuilder::default().build().unwrap();
    let res = Decompress::default().decompress(
        "device.tar",
        &data,
        "/tmp/decompress-out/dev",
        &opts,
        &DefaultHooks,
    );
    match res {
        Err(DecompressError::UnsupportedEntryType(p)) => assert_eq!(p, "root/pipe"),
        other => panic!("expected the unsupported-entry error, got {other:?}"),
    }
}

#[test]
fn test_filter_skips_entries() {
    let data = tar_fixture();
    let opts = ExtractOptsBuilder::default().strip(0).build().unwrap();
    let hooks = SuffixFilterHooks { suffix: "a.txt".to_string() };
    let res = Decompress::default()
        .decompress("inner.tar", &data, "/tmp/decompress-out/flt", &opts, &hooks)
        .unwrap();
    assert_eq!(res.files, vec!["/tmp/decompress-out/flt/root/a.txt".to_string()]);
    assert_eq!(res.actions.len(), 1);
}

#[test]
fn test_map_changes_output() {
    let data = tar_fixture();
    let opts = ExtractOptsBuilder::default().strip(0).build().unwrap();
    let hooks = AppendMapHooks { suffix: "-renamed".to_string() };
    let res = Decompress::default()
        .decompress("inner.tar", &data, "/tmp/decompress-out/map", &opts, &hooks)
        .unwrap();
    assert_eq!(
        res.files,
        vec![
            "/tmp/decompress-out/map/root/a.txt-renamed".to_string(),
            "/tmp/decompress-out/map/root/sub/b.txt-renamed".to_string(),
        ]
    );
    // never at the original paths
    assert!(!res.files.contains(&"/tmp/decompress-out/map/root/a.txt".to_string()));
}

#[test]
fn test_format_selection_by_name() {
    let tgz = gzip_bytes(&tar_fixture());
    let opts = ExtractOptsBuilder::default().build().unwrap();

    let res = Decompress::default()
        .decompress("archive.tar.gz", &tgz, "/tmp/decompress-out/sel1", &opts, &DefaultHooks)
        .unwrap();
    assert_eq!(res.id, "targz");

    // case-insensitive
    let res = Decompress::default()
        .decompress("ARCHIVE.TAR.GZ", &tgz, "/tmp/decompress-out/sel2", &opts, &DefaultHooks)
        .unwrap();
    assert_eq!(res.id, "targz");

    // a bare gzip name takes the single-stream adapter
    let gz = gzip_bytes(b"hello");
    let res = Decompress::default()
        .decompress("sub.txt.gz", &gz, "/tmp/decompress-out/sel3", &opts, &DefaultHooks)
        .unwrap();
    assert_eq!(res.id, "gz");
    assert_eq!(res.files, vec!["/tmp/decompress-out/sel3/sub.txt".to_string()]);
    let (_, d) = file_action_data(&res.actions[0]);
    assert_eq!(d, b"hello".to_vec());
}

#[test]
fn test_format_selection_by_content() {
    let opts = ExtractOptsBuilder::default().detect_content(true).build().unwrap();

    let tgz = gzip_bytes(&tar_fixture());
    let res = Decompress::default()
        .decompress("bare_tar_gz", &tgz, "/tmp/decompress-out/cnt1", &opts, &DefaultHooks)
        .unwrap();
    assert_eq!(res.id, "targz");

    let data = tar_fixture();
    let res = Decompress::default()
        .decompress("bare_tar", &data, "/tmp/decompress-out/cnt2", &opts, &DefaultHooks)
        .unwrap();
    assert_eq!(res.id, "tarball");
}

#[test]
fn test_codec_error_on_garbage() {
    let opts = ExtractOptsBuilder::default().build().unwrap();
    let garbage: Vec<u8> = vec![0x1f, 0x8b, 0x00, 0x01, 0x02, 0x03];
    let res = Decompress::default().decompress(
        "x.gz",
        &garbage,
        "/tmp/decompress-out/bad",
        &opts,
        &DefaultHooks,
    );
    match res {
        Err(DecompressError::Codec(_)) => {}
        other => panic!("expected a codec error, got {other:?}"),
    }
}

#[test]
fn test_custom_pattern_sees_file_name_only() {
    // a pattern anchored at the start matches the final file-name
    // component, not the directories leading to the archive
    let dec = Decompress::build(vec![Adapter::new(
        Format::Targz,
        Some(Pattern::new("^tar").unwrap()),
    )]);
    assert!(dec.can_decompress("dir/tar-gz.tzz"));
    assert!(!dec.can_decompress("tardir/other.bin"));
}

#[test]
fn test_non_text_entry_name_is_refused() {
    let mut h = tar::Header::new_gnu();
    h.set_size(0);
    h.set_mode(0o644);
    h.set_entry_type(tar::EntryType::Regular);
    {
        let name = &mut h.as_gnu_mut().unwrap().name;
        name[0] = 0xff;
        name[1] = 0xfe;
        name[2] = b'x';
    }
    h.set_cksum();
    let mut data = h.as_bytes().to_vec();
    data.extend_from_slice(&[0u8; 1024]);

    let opts = ExtractOptsBuilder::default().build().unwrap();
    let res = Decompress::default().decompress(
        "weird.tar",
        &data,
        "/tmp/decompress-out/utf8",
        &opts,
        &DefaultHooks,
    );
    match res {
        Err(DecompressError::PathNotUtf8(_)) => {}
        other => panic!("expected the path-encoding error, got {other:?}"),
    }
}

#[test]
fn test_rar_entry_names_carry_directory_slash() {
    assert_eq!(decompress::registry::rar_entry_name("a/b", true), "a/b/");
    assert_eq!(decompress::registry::rar_entry_name("a/b/", true), "a/b/");
    assert_eq!(decompress::registry::rar_entry_name("a/b", false), "a/b");
}

#[test]
fn test_unlinked_codec_reports_codec_error() {
    // detection knows the format, but no codec for it is linked into
    // this build, so decoding fails with a codec-level error
    let opts = ExtractOptsBuilder::default().build().unwrap();
    let data: Vec<u8> = vec![0u8; 16];
    let res = Decompress::default().decompress(
        "archive.tar.xz",
        &data,
        "/tmp/decompress-out/xz",
        &opts,
        &DefaultHooks,
    );
    match res {
        Err(DecompressError::Codec(m)) => assert!(m.starts_with("tarxz")),
        other => panic!("expected a codec error, got {other:?}"),
    }
}

#[test]
fn test_relative_output_dir_is_absolutized() {
    let data = tar_fixture();
    let opts = ExtractOptsBuilder::default().build().unwrap();
    let res = Decompress::default()
        .decompress("inner.tar", &data, "out_rel", &opts, &DefaultHooks)
        .unwrap();
    assert_eq!(res.files.len(), 2);
    assert!(res.files[0].starts_with('/'));
    assert!(res.files[0].ends_with("/out_rel/root/a.txt"));
}
