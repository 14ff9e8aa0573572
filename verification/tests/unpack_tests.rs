use std::io::Write;

use protonup::files::{
    rebase_entry_path, unpack_file, unpack_tar_with_new_top_level, Codec, FileError,
    StreamingDecoder, TarEntry,
};

/// Builds an in-memory tar archive holding a directory tree rooted at
/// `top`: `file1.txt`, `subdir/` and `subdir/file2.txt`.
fn sample_tar(top: &str) -> Vec<u8> {
    let mut builder = tar::Builder::new(Vec::new());

    let mut dir_header = tar::Header::new_gnu();
    dir_header.set_entry_type(tar::EntryType::Directory);
    dir_header.set_size(0);
    dir_header.set_mode(0o755);
    dir_header.set_cksum();
    builder
        .append_data(&mut dir_header, format!("{}/", top), &[][..])
        .unwrap();

    let mut f1 = tar::Header::new_gnu();
    f1.set_size("test content".len() as u64);
    f1.set_mode(0o644);
    f1.set_cksum();
    builder
        .append_data(&mut f1, format!("{}/file1.txt", top), "test content".as_bytes())
        .unwrap();

    let mut sub = tar::Header::new_gnu();
    sub.set_entry_type(tar::EntryType::Directory);
    sub.set_size(0);
    sub.set_mode(0o755);
    sub.set_cksum();
    builder
        .append_data(&mut sub, format!("{}/subdir/", top), &[][..])
        .unwrap();

    let mut f2 = tar::Header::new_gnu();
    f2.set_size("more content".len() as u64);
    f2.set_mode(0o644);
    f2.set_cksum();
    builder
        .append_data(
            &mut f2,
            format!("{}/subdir/file2.txt", top),
            "more content".as_bytes(),
        )
        .unwrap();

    builder.into_inner().unwrap()
}

fn find<'a>(entries: &'a [TarEntry], path: &str) -> &'a TarEntry {
    entries
        .iter()
        .find(|e| e.path == path)
        .unwrap_or_else(|| panic!("{} not found in new structure", path))
}

#[test]
fn test_unpack_with_new_top_level() {
    let tar_bytes = sample_tar("original_top");

    let entries = unpack_tar_with_new_top_level(&tar_bytes, "./output", "new_top_123")
        .expect("Unpacking failed");

    assert!(
        entries.iter().all(|e| e.path.starts_with("./output/new_top_123")),
        "New top level directory not created"
    );

    let file1 = find(&entries, "./output/new_top_123/file1.txt");
    assert!(!file1.is_dir, "File not found in new structure");
    assert_eq!(String::from_utf8(file1.data.clone()).unwrap(), "test content");
    assert_eq!(file1.mode, 0o644, "entry permissions were not carried through");

    let file2 = find(&entries, "./output/new_top_123/subdir/file2.txt");
    assert!(!file2.is_dir, "Nested file not found");
    assert_eq!(String::from_utf8(file2.data.clone()).unwrap(), "more content");
}

/// Whatever the archive's top-level folder was called, the entries land
/// at the same destinations.
#[test]
fn unpack_normalizes_any_top_level_name() {
    let a = unpack_tar_with_new_top_level(&sample_tar("anything"), "/dest", "tool-1.0").unwrap();
    let b = unpack_tar_with_new_top_level(&sample_tar("v9.2-build"), "/dest", "tool-1.0").unwrap();
    // The first entry is the archive's top-level folder itself, which
    // keeps its own name; every entry below it is normalized.
    let paths_a: Vec<&str> = a.iter().skip(1).map(|e| e.path.as_str()).collect();
    let paths_b: Vec<&str> = b.iter().skip(1).map(|e| e.path.as_str()).collect();
    assert_eq!(paths_a, paths_b);
    assert!(paths_a.contains(&"/dest/tool-1.0/subdir/file2.txt"));
}

#[test]
fn unpack_gzip_archive_end_to_end() {
    let tar_bytes = sample_tar("GE-Proton9-27");
    let mut enc = flate2::write::GzEncoder::new(Vec::new(), flate2::Compression::default());
    enc.write_all(&tar_bytes).unwrap();
    let gz = enc.finish().unwrap();

    let entries = unpack_file("GE-Proton9-27.tar.gz", &gz, "/install", "GE-Proton9-27").unwrap();
    let f = find(&entries, "/install/GE-Proton9-27/file1.txt");
    assert_eq!(f.data, b"test content");
}

#[test]
fn unpack_xz_archive_end_to_end() {
    let tar_bytes = sample_tar("wine-ge");
    let mut enc = xz2::write::XzEncoder::new(Vec::new(), 6);
    enc.write_all(&tar_bytes).unwrap();
    let xz = enc.finish().unwrap();

    let entries = unpack_file("wine.tar.xz", &xz, "/install", "GE-Wine8-26").unwrap();
    assert!(entries.iter().any(|e| e.path == "/install/GE-Wine8-26/file1.txt"));
}

#[test]
fn unpack_zstd_archive_end_to_end() {
    let tar_bytes = sample_tar("tool");
    let zs = zstd::encode_all(&tar_bytes[..], 3).unwrap();

    let entries = unpack_file("tool.tar.zst", &zs, "/install", "tool-2").unwrap();
    assert!(entries.iter().any(|e| e.path == "/install/tool-2/subdir/file2.txt"));
}

#[test]
fn unpack_rejects_unknown_suffix_before_reading() {
    let err = unpack_file("archive.zip", b"not even a file", "/install", "x").unwrap_err();
    assert_eq!(err, FileError::UnsupportedExtension);
}

#[test]
fn unpack_reports_decompress_failure() {
    let err = unpack_file("a.tar.gz", b"definitely not gzip", "/install", "x").unwrap_err();
    assert_eq!(err, FileError::Decompress);
}

#[test]
fn unpack_reports_archive_failure() {
    // Valid gzip stream, but its content is no tar archive.
    let mut enc = flate2::write::GzEncoder::new(Vec::new(), flate2::Compression::default());
    enc.write_all(b"too short for a tar header").unwrap();
    let gz = enc.finish().unwrap();
    let err = unpack_file("a.tar.gz", &gz, "/install", "x").unwrap_err();
    assert_eq!(err, FileError::Archive);
}

/// Directory entries carry their stored permissions and times too.
#[test]
fn unpack_keeps_entry_metadata() {
    let entries =
        unpack_tar_with_new_top_level(&sample_tar("top"), "/dest", "tool").expect("Unpacking failed");
    let dir = find(&entries, "/dest/tool/subdir");
    assert!(dir.is_dir);
    assert_eq!(dir.mode, 0o755);
    let file = find(&entries, "/dest/tool/subdir/file2.txt");
    assert_eq!(file.mode, 0o644);
    assert_eq!(file.mtime, 0);
}

/// Feeding the compressed archive to the streaming decoder chunk by
/// chunk emits, in total, exactly the whole-archive decoding.
#[test]
fn streaming_decoder_matches_whole_decode() {
    let tar_bytes = sample_tar("chunked");
    let mut enc = flate2::write::GzEncoder::new(Vec::new(), flate2::Compression::default());
    enc.write_all(&tar_bytes).unwrap();
    let gz = enc.finish().unwrap();

    let mut decoder = StreamingDecoder::new(Codec::Gzip).unwrap();
    let mut streamed: Vec<u8> = Vec::new();
    for chunk in gz.chunks(7) {
        let (next, emitted) = decoder.push(chunk);
        decoder = next;
        streamed.extend_from_slice(&emitted.expect("valid stream"));
    }
    streamed.extend_from_slice(&decoder.finish().expect("complete stream"));
    assert_eq!(streamed, tar_bytes);

    let zs = zstd::encode_all(&tar_bytes[..], 3).unwrap();
    let mut decoder = StreamingDecoder::new(Codec::Zstd).unwrap();
    let mut streamed: Vec<u8> = Vec::new();
    for chunk in zs.chunks(11) {
        let (next, emitted) = decoder.push(chunk);
        decoder = next;
        streamed.extend_from_slice(&emitted.expect("valid stream"));
    }
    streamed.extend_from_slice(&decoder.finish().expect("complete stream"));
    assert_eq!(streamed, tar_bytes);

    let mut enc = xz2::write::XzEncoder::new(Vec::new(), 6);
    enc.write_all(&tar_bytes).unwrap();
    let xz = enc.finish().unwrap();
    let mut decoder = StreamingDecoder::new(Codec::Xz).unwrap();
    let mut streamed: Vec<u8> = Vec::new();
    for chunk in xz.chunks(13) {
        let (next, emitted) = decoder.push(chunk);
        decoder = next;
        streamed.extend_from_slice(&emitted.expect("valid stream"));
    }
    streamed.extend_from_slice(&decoder.finish().expect("complete stream"));
    assert_eq!(streamed, tar_bytes);
}

/// The streaming decoder refuses bytes its codec does not accept: a
/// stream that opens with garbage, and bytes that follow a complete
/// stream's end, both make a push return nothing.
#[test]
fn streaming_decoder_rejects_invalid_bytes() {
    let garbage = b"not a compressed stream at all!!";
    for codec in [Codec::Gzip, Codec::Xz, Codec::Zstd] {
        let decoder = StreamingDecoder::new(codec).unwrap();
        let (_, emitted) = decoder.push(garbage);
        assert!(emitted.is_none(), "{:?} accepted garbage", codec);
    }

    let tar_bytes = sample_tar("tail");
    let mut enc = flate2::write::GzEncoder::new(Vec::new(), flate2::Compression::default());
    enc.write_all(&tar_bytes).unwrap();
    let gz = enc.finish().unwrap();
    let mut decoder = StreamingDecoder::new(Codec::Gzip).unwrap();
    let (next, emitted) = decoder.push(&gz);
    decoder = next;
    assert!(emitted.is_some());
    let (_, emitted) = decoder.push(garbage);
    assert!(emitted.is_none(), "bytes after the stream's end were accepted");
}

#[test]
fn rebase_entry_path_cases() {
    // A nested entry loses its top-level component.
    assert_eq!(
        rebase_entry_path("/dest", "name", "top/a/b.txt"),
        "/dest/name/a/b.txt"
    );
    // A bare file at archive root keeps its name under the new top.
    assert_eq!(rebase_entry_path("/dest", "name", "file.txt"), "/dest/name/file.txt");
    // The top-level directory entry itself keeps its own name too.
    assert_eq!(rebase_entry_path("/dest", "name", "top/"), "/dest/name/top");
    // Current-directory markers and doubled slashes are dropped.
    assert_eq!(
        rebase_entry_path("/dest", "name", "./top//sub/c"),
        "/dest/name/sub/c"
    );
}
