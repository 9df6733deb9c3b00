use autoarc::fs::classify::{
    classify_head, classify_mime, contains, detect_sfx, detect_via_file_cmd, is_type_archive,
    is_type_video, FileType, Probe,
};

fn padded(prefix: &[u8]) -> Vec<u8> {
    let mut v = prefix.to_vec();
    v.resize(64, 0);
    v
}

const ALL: [FileType; 8] = [
    FileType::Zip,
    FileType::Rar,
    FileType::SevenZ,
    FileType::Mp4,
    FileType::TS,
    FileType::Multi,
    FileType::Sfx,
    FileType::Unknown,
];

#[test]
fn archive_kinds_are_the_five_archive_formats() {
    let archives: Vec<FileType> = ALL.iter().copied().filter(|t| is_type_archive(*t)).collect();
    assert_eq!(
        archives,
        vec![FileType::Zip, FileType::Rar, FileType::SevenZ, FileType::Multi, FileType::Sfx]
    );
}

#[test]
fn video_kinds_are_mp4_and_ts() {
    let videos: Vec<FileType> = ALL.iter().copied().filter(|t| is_type_video(*t)).collect();
    assert_eq!(videos, vec![FileType::Mp4, FileType::TS]);
}

#[test]
fn no_kind_is_both_archive_and_video() {
    for t in ALL {
        assert!(!(is_type_archive(t) && is_type_video(t)));
    }
}

#[test]
fn zip_mime_with_split_extension_is_multi() {
    assert_eq!(classify_mime(Some("application/zip"), Some("z01")), Probe::Decided(FileType::Multi));
    assert_eq!(classify_mime(Some("application/zip"), Some("001")), Probe::Decided(FileType::Multi));
    assert_eq!(classify_mime(Some("application/zip"), Some("zip")), Probe::Decided(FileType::Zip));
    assert_eq!(classify_mime(Some("application/zip"), None), Probe::Decided(FileType::Zip));
}

#[test]
fn sevenz_mime_with_001_extension_is_multi() {
    assert_eq!(
        classify_mime(Some("application/x-7z-compressed"), Some("001")),
        Probe::Decided(FileType::Multi)
    );
    assert_eq!(
        classify_mime(Some("application/x-7z-compressed"), Some("z01")),
        Probe::Decided(FileType::SevenZ)
    );
    assert_eq!(
        classify_mime(Some("application/x-7z-compressed"), Some("7z")),
        Probe::Decided(FileType::SevenZ)
    );
}

#[test]
fn other_mime_types() {
    assert_eq!(classify_mime(Some("application/vnd.rar"), None), Probe::Decided(FileType::Rar));
    assert_eq!(classify_mime(Some("video/mp4"), Some("bin")), Probe::Decided(FileType::Mp4));
    assert_eq!(classify_mime(Some("video/x-m4v"), None), Probe::Decided(FileType::Mp4));
    assert_eq!(
        classify_mime(Some("application/vnd.microsoft.portable-executable"), Some("exe")),
        Probe::ScanForPayload
    );
    assert_eq!(classify_mime(Some("image/png"), Some("zip")), Probe::Decided(FileType::Unknown));
    assert_eq!(classify_mime(None, Some("zip")), Probe::AskFileCommand);
}

#[test]
fn head_bytes_of_zip_volumes() {
    let zip = padded(&[0x50, 0x4B, 0x03, 0x04]);
    assert_eq!(classify_head(&zip, "/in/a.zip"), Probe::Decided(FileType::Zip));
    assert_eq!(classify_head(&zip, "/in/a.z01"), Probe::Decided(FileType::Multi));
    assert_eq!(classify_head(&zip, "/in/a.001"), Probe::Decided(FileType::Multi));
}

#[test]
fn head_bytes_of_7z_rar_exe_mp4() {
    let sevenz = padded(&[0x37, 0x7A, 0xBC, 0xAF, 0x27, 0x1C]);
    assert_eq!(classify_head(&sevenz, "data.7z"), Probe::Decided(FileType::SevenZ));
    assert_eq!(classify_head(&sevenz, "data.7z.001"), Probe::Decided(FileType::Multi));
    let rar = padded(b"Rar!\x1a\x07\x00");
    assert_eq!(classify_head(&rar, "photos.rar"), Probe::Decided(FileType::Rar));
    let exe = padded(b"MZ");
    assert_eq!(classify_head(&exe, "setup.exe"), Probe::ScanForPayload);
    let mp4 = padded(b"\x00\x00\x00\x18ftypisom");
    assert_eq!(classify_head(&mp4, "clip.bin"), Probe::Decided(FileType::Mp4));
}

#[test]
fn unrecognised_head_asks_file_command() {
    assert_eq!(classify_head(b"", "empty"), Probe::AskFileCommand);
}

#[test]
fn substring_search() {
    assert!(contains(&[1, 2, 3, 4], &[2, 3]));
    assert!(contains(&[1, 2, 3, 4], &[3, 4]));
    assert!(contains(&[1, 2], &[1, 2]));
    assert!(!contains(&[1, 2, 3], &[3, 2]));
    assert!(!contains(&[1], &[1, 2]));
    assert!(!contains(&[], &[0]));
}

#[test]
fn sfx_payload_signatures() {
    let mut window = padded(b"MZ");
    assert_eq!(detect_sfx(&window), None);
    window.extend_from_slice(b"Rar!\x1a\x07");
    assert_eq!(detect_sfx(&window), Some(FileType::Sfx));
    let mut seven = padded(b"MZ");
    seven.extend_from_slice(&[0x37, 0x7A, 0xBC, 0xAF, 0x27, 0x1C, 9, 9]);
    assert_eq!(detect_sfx(&seven), Some(FileType::Sfx));
    let mut zip = padded(b"MZ");
    zip.extend_from_slice(b"xxPK\x03\x04");
    assert_eq!(detect_sfx(&zip), Some(FileType::Sfx));
    assert_eq!(detect_sfx(b"PK\x03"), None);
}

#[test]
fn file_command_spots_mpeg_ts() {
    assert_eq!(detect_via_file_cmd(true, b"video/MP2T; charset=binary\n"), Some(FileType::TS));
    assert_eq!(detect_via_file_cmd(true, b"video/mp2t"), Some(FileType::TS));
    assert_eq!(detect_via_file_cmd(false, b"video/mp2t"), None);
    assert_eq!(detect_via_file_cmd(true, b"text/plain; charset=us-ascii"), None);
    assert_eq!(detect_via_file_cmd(true, b"video/mp2"), None);
    assert_eq!(detect_via_file_cmd(true, b"video/mp2t\xff"), None);
}
