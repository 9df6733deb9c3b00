use autoarc::utils::{classify_mime, create_outpath, is_type_archive, is_type_video, rename_target, FileType};

#[test]
fn legacy_kinds() {
    for t in [FileType::Zip, FileType::Rar, FileType::SevenZ, FileType::Multi] {
        assert!(is_type_archive(t));
        assert!(!is_type_video(t));
    }
    for t in [FileType::Mp4, FileType::TS] {
        assert!(is_type_video(t));
        assert!(!is_type_archive(t));
    }
    assert!(!is_type_archive(FileType::Unknown));
    assert!(!is_type_video(FileType::Unknown));
}

#[test]
fn legacy_mime_classification() {
    assert_eq!(classify_mime("application/zip", Some("z01")), FileType::Multi);
    assert_eq!(classify_mime("application/zip", Some("zip")), FileType::Zip);
    assert_eq!(classify_mime("application/x-7z-compressed", Some("001")), FileType::SevenZ);
    assert_eq!(classify_mime("application/vnd.rar", None), FileType::Rar);
    assert_eq!(classify_mime("video/x-m4v", None), FileType::Mp4);
    assert_eq!(classify_mime("application/vnd.microsoft.portable-executable", None), FileType::Unknown);
}

#[test]
fn legacy_outpath_and_rename() {
    assert_eq!(create_outpath("/a/b.zip", "c/d"), "/a/b_out/c/d");
    assert_eq!(create_outpath("/a/b.zip", "../d"), "/a/b_out/../d");
    assert_eq!(rename_target("/v/c.bin", FileType::Mp4).as_deref(), Some("/v/c.mp4"));
    assert_eq!(rename_target("/v/c.Ts", FileType::TS), None);
    assert_eq!(rename_target("/v/c.bin", FileType::Rar), None);
}
