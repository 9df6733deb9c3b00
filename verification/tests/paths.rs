use autoarc::fs::classify::FileType;
use autoarc::fs::paths::{
    create_outpath, dated_bak_dir_name, dated_dir_name, extension, file_stem, join,
    month_day_stamp, out_dir, parent_or_current, relative_path, today_bak_dir_name,
    today_dir_name,
};
use autoarc::runner::TaskParams;
use autoarc::fs::video::rename_target;

#[test]
fn join_follows_pathbuf_push() {
    assert_eq!(join("a", "b"), "a/b");
    assert_eq!(join("a/", "b"), "a/b");
    assert_eq!(join("", "b"), "b");
    assert_eq!(join("a", "/b"), "/b");
    assert_eq!(join("a", ""), "a/");
    for (a, b) in [("x/y", "z.txt"), ("/", "etc"), ("rel", "/abs/p"), ("", "")] {
        let expected = std::path::Path::new(a).join(b);
        assert_eq!(join(a, b), expected.to_str().unwrap());
    }
}

#[test]
fn stems_and_extensions() {
    assert_eq!(file_stem("/a/b.zip").as_deref(), Some("b"));
    assert_eq!(extension("/a/b.zip").as_deref(), Some("zip"));
    assert_eq!(file_stem("a.tar.gz").as_deref(), Some("a.tar"));
    assert_eq!(extension("a.tar.gz").as_deref(), Some("gz"));
    assert_eq!(file_stem(".bashrc").as_deref(), Some(".bashrc"));
    assert_eq!(extension(".bashrc"), None);
    assert_eq!(file_stem("a.").as_deref(), Some("a"));
    assert_eq!(extension("a.").as_deref(), Some(""));
    assert_eq!(file_stem("/"), None);
    assert_eq!(extension("noext"), None);
    for p in ["x/y.z", "..a", "dir/.hidden.txt", "a/..", "v.7z.001", "/a/b/"] {
        let path = std::path::Path::new(p);
        assert_eq!(file_stem(p).as_deref(), path.file_stem().map(|s| s.to_str().unwrap()));
        assert_eq!(extension(p).as_deref(), path.extension().map(|s| s.to_str().unwrap()));
    }
}

#[test]
fn parents() {
    assert_eq!(parent_or_current("/a/b.zip"), "/a");
    assert_eq!(parent_or_current("b.zip"), "");
    assert_eq!(parent_or_current("/"), ".");
    assert_eq!(parent_or_current("x/y"), "x");
    assert_eq!(parent_or_current("x/y/"), "x");
}

#[test]
fn outpath_is_in_sibling_out_directory() {
    assert_eq!(create_outpath("/tmp/in/foo.zip", "bar/baz.txt"), "/tmp/in/foo_out/bar/baz.txt");
    assert_eq!(create_outpath("foo.zip", "x"), "foo_out/x");
    assert_eq!(create_outpath("/", "x"), "./archive_out/x");
    assert_eq!(create_outpath("/d/set.7z.001", "a"), "/d/set.7z_out/a");
    assert_eq!(out_dir("/tmp/in/foo.zip"), "/tmp/in/foo_out");
}

#[test]
fn entries_of_one_archive_share_its_out_directory() {
    let dir = out_dir("/data/movie.rar");
    for name in ["a.mp4", "sub/b.txt", "c"] {
        assert_eq!(create_outpath("/data/movie.rar", name), join(&dir, name));
    }
}

#[test]
fn absolute_entry_names_stay_inside_the_out_directory() {
    assert_eq!(create_outpath("/tmp/in/foo.zip", "/etc/passwd"), "/tmp/in/foo_out/etc/passwd");
    assert_eq!(create_outpath("/tmp/in/foo.zip", "//x"), "/tmp/in/foo_out/x");
}

#[test]
fn relative_entry_names_are_appended_as_they_are() {
    assert_eq!(create_outpath("/tmp/in/foo.zip", "../x"), "/tmp/in/foo_out/../x");
    assert_eq!(create_outpath("/tmp/in/foo.zip", "a/../../b"), "/tmp/in/foo_out/a/../../b");
    assert_eq!(create_outpath("/tmp/in/foo.zip", "..."), "/tmp/in/foo_out/...");
    assert_eq!(create_outpath("/tmp/in/foo.zip", ""), "/tmp/in/foo_out/");
}

#[test]
fn date_stamps() {
    assert_eq!(month_day_stamp(3, 7), "03-07");
    assert_eq!(month_day_stamp(12, 31), "12-31");
    assert_eq!(dated_dir_name("/base", 12, 25), "/base/12-25");
    assert_eq!(dated_bak_dir_name("/base", 1, 2), "/base/01-02_bak");
}

#[test]
fn today_directories_have_the_date_shape() {
    let today = today_dir_name("/base");
    assert!(today.starts_with("/base/"));
    let stamp = &today["/base/".len()..];
    assert_eq!(stamp.len(), 5);
    assert_eq!(&stamp[2..3], "-");
    assert!(stamp.chars().filter(|c| *c != '-').all(|c| c.is_ascii_digit()));
    let bak = today_bak_dir_name("/base");
    assert!(bak.ends_with("_bak"));
    assert_eq!(bak.len(), today.len() + 4);
}

#[test]
fn relative_paths() {
    assert_eq!(relative_path("/foo/bar", "/foo/bar/baz"), "baz");
    assert_eq!(relative_path("/foo/bar/quux", "/foo/bar/baz"), "../baz");
    assert_eq!(relative_path("baz", "/foo/bar"), "/foo/bar");
    assert_eq!(relative_path("/base", "rel/x"), "rel/x");
    assert_eq!(relative_path("/a", "/a"), "");
}

#[test]
fn labels_compare_paths_by_components() {
    let same = TaskParams { archive_path: "/d/x.zip".to_string(), root: "/d//x.zip".to_string() };
    assert_eq!(same.display("rel"), "/d/x.zip");
    let trailing = TaskParams { archive_path: "/d/x".to_string(), root: "/d/x/".to_string() };
    assert_eq!(trailing.display("rel"), "/d/x");
    let other = TaskParams { archive_path: "/d/x.zip".to_string(), root: "/d/y.zip".to_string() };
    assert_eq!(other.display("rel"), "/d/x.zip <- /d/y.zip");
}

#[test]
fn video_rename_targets() {
    assert_eq!(rename_target("/v/clip.bin", FileType::Mp4).as_deref(), Some("/v/clip.mp4"));
    assert_eq!(rename_target("/v/clip.MP4", FileType::Mp4), None);
    assert_eq!(rename_target("/v/clip.mp4", FileType::Mp4), None);
    assert_eq!(rename_target("/v/clip", FileType::TS).as_deref(), Some("/v/clip.ts"));
    assert_eq!(rename_target("/v/clip.mp4", FileType::TS).as_deref(), Some("/v/clip.ts"));
    assert_eq!(rename_target("clip.avi", FileType::Mp4).as_deref(), Some("clip.mp4"));
    assert_eq!(rename_target("/", FileType::Mp4).as_deref(), Some("./video.mp4"));
    assert_eq!(rename_target("/v/clip.bin", FileType::Zip), None);
    assert_eq!(rename_target("/v/clip.bin", FileType::Unknown), None);
}

#[test]
fn rename_targets_carry_the_canonical_extension() {
    for (p, t, ext) in [("a/b.x", FileType::Mp4, ".mp4"), ("q", FileType::TS, ".ts"), (".h", FileType::TS, ".ts")] {
        let target = rename_target(p, t).unwrap();
        assert!(target.ends_with(ext));
        assert_eq!(rename_target(&target, t), None);
    }
}
