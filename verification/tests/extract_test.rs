use libfetch::extract::{
    extract_tar_gz_archive, extract_zip_archive, strip_top_level, FsAction,
};

fn make_tar_gz(entries: &[(&str, Option<&[u8]>)]) -> Vec<u8> {
    let mut builder = tar::Builder::new(Vec::new());
    for (path, content) in entries {
        match content {
            Some(data) => {
                let mut header = tar::Header::new_gnu();
                header.set_size(data.len() as u64);
                header.set_mode(0o644);
                header.set_cksum();
                builder.append_data(&mut header, path, *data).expect("append file entry");
            },
            None => {
                let mut header = tar::Header::new_gnu();
                header.set_entry_type(tar::EntryType::Directory);
                header.set_size(0);
                header.set_mode(0o755);
                header.set_cksum();
                builder.append_data(&mut header, path, std::io::empty()).expect(
                    "append directory entry",
                );
            },
        }
    }
    let tar_bytes = builder.into_inner().expect("finish tar");
    let mut encoder = flate2::write::GzEncoder::new(Vec::new(), flate2::Compression::default());
    std::io::Write::write_all(&mut encoder, &tar_bytes).expect("compress");
    encoder.finish().expect("finish gzip")
}

#[test]
fn tar_top_level_stripping() {
    let payload = make_tar_gz(&[("pkg-1.0/", None), ("pkg-1.0/bin/tool", Some(b"tool-bytes"))]);
    let actions = extract_tar_gz_archive(&payload).expect("plan extraction");
    // The bare top-level directory entry produces no filesystem object and
    // no path keeps the pkg-1.0 component.
    assert_eq!(actions.len(), 1);
    match &actions[0] {
        FsAction::WriteFile { path, data, unix_mode } => {
            assert_eq!(path, "bin/tool");
            assert_eq!(data.as_slice(), b"tool-bytes");
            assert_eq!(*unix_mode, Some(0o644));
        },
        other => panic!("expected a file write, got {:?}", action_name(other)),
    }
}

#[test]
fn zip_paths_cannot_escape_the_destination() {
    let mut writer = zip::ZipWriter::new(std::io::Cursor::new(Vec::new()));
    let options = zip::write::SimpleFileOptions::default();
    writer.start_file("../evil.txt", options).expect("start file");
    std::io::Write::write_all(&mut writer, b"x").expect("write content");
    let cursor = writer.finish().expect("finish zip");
    let payload = cursor.into_inner();

    let actions = extract_zip_archive(&payload).expect("plan extraction");
    assert_eq!(actions.len(), 1);
    match &actions[0] {
        FsAction::WriteFile { path, .. } => {
            // The parent-directory component is sanitized away.
            assert_eq!(path, "evil.txt");
        },
        other => panic!("expected a file write, got {:?}", action_name(other)),
    }
}

#[test]
fn tar_directory_entries_become_directories() {
    let payload = make_tar_gz(&[
        ("pkg-1.0/", None),
        ("pkg-1.0/share/", None),
        ("pkg-1.0/share/doc.txt", Some(b"text")),
    ]);
    let actions = extract_tar_gz_archive(&payload).expect("plan extraction");
    assert_eq!(actions.len(), 2);
    match &actions[0] {
        FsAction::MakeDir { path } => assert_eq!(path, "share"),
        other => panic!("expected a directory, got {:?}", action_name(other)),
    }
    match &actions[1] {
        FsAction::WriteFile { path, data, .. } => {
            assert_eq!(path, "share/doc.txt");
            assert_eq!(data.as_slice(), b"text");
        },
        other => panic!("expected a file write, got {:?}", action_name(other)),
    }
}

#[test]
fn malformed_gzip_payload_is_rejected() {
    let r = extract_tar_gz_archive(&vec![1u8, 2, 3, 4]);
    assert!(r.is_err());
}

#[test]
fn zip_entries_are_planned_byte_for_byte() {
    let mut writer = zip::ZipWriter::new(std::io::Cursor::new(Vec::new()));
    let options = zip::write::SimpleFileOptions::default();
    writer.add_directory("dir/", options).expect("add directory");
    writer.start_file("dir/file.txt", options).expect("start file");
    std::io::Write::write_all(&mut writer, b"hello").expect("write content");
    let cursor = writer.finish().expect("finish zip");
    let payload = cursor.into_inner();

    let actions = extract_zip_archive(&payload).expect("plan extraction");
    assert_eq!(actions.len(), 2);
    match &actions[0] {
        FsAction::MakeDir { path } => assert_eq!(path, "dir"),
        other => panic!("expected a directory, got {:?}", action_name(other)),
    }
    match &actions[1] {
        FsAction::WriteFile { path, data, .. } => {
            assert_eq!(path, "dir/file.txt");
            assert_eq!(data.as_slice(), b"hello");
        },
        other => panic!("expected a file write, got {:?}", action_name(other)),
    }
}

#[test]
fn malformed_zip_payload_is_rejected() {
    let r = extract_zip_archive(&vec![9u8, 9, 9]);
    assert!(r.is_err());
}

#[test]
fn strip_top_level_drops_the_first_component() {
    assert_eq!(strip_top_level("pkg-1.0/bin/tool"), "bin/tool");
    assert_eq!(strip_top_level("pkg-1.0/"), "");
    assert_eq!(strip_top_level("pkg-1.0"), "");
    assert_eq!(strip_top_level("a/b"), "b");
    assert_eq!(strip_top_level(""), "");
}

fn action_name(a: &FsAction) -> &'static str {
    match a {
        FsAction::MakeDir { .. } => "MakeDir",
        FsAction::WriteFile { .. } => "WriteFile",
        FsAction::MakeSymlink { .. } => "MakeSymlink",
    }
}
