use autoarc::cli::effective_depth;
use autoarc::config::{parse_password_list, password_candidates, trim_chars};
use autoarc::error::AutoarcError;
use autoarc::extractors::rar::{RarExtractor, RarProbeCode};
use autoarc::extractors::sevenz::{SevenzExtractor, SevenzProbe};
use autoarc::extractors::unar::{parse_lsar_output, UnarExtractor};
use autoarc::extractors::zip::{ZipExtractor, ZipProbe};
use autoarc::extractors::{
    backend_for, entry_role, is_macos_metadata, nested_tasks, Backend, EntryRole, ExtractOutcome,
    PasswordCheck, PasswordTrial, ProbeFailure, TrialNext,
};
use autoarc::fs::classify::FileType;
use autoarc::fs::paths::create_outpath;
use autoarc::progress::Stats;
use autoarc::runner::{accepts_answer, is_later_volume, is_volume_of, kind_tag, should_descend, triage, volume_set, TaskParams, Triage, Workload};
use autoarc::text::lines_of;

use std::io::Write;

fn strings(v: &[&str]) -> Vec<String> {
    v.iter().map(|s| s.to_string()).collect()
}

#[test]
fn unset_password_list_tries_only_the_empty_password() {
    assert_eq!(password_candidates(None), strings(&[""]));
}

#[test]
fn empty_password_comes_first() {
    assert_eq!(password_candidates(Some("")), strings(&[""]));
    assert_eq!(password_candidates(Some(" , ,\t")), strings(&[""]));
    assert_eq!(password_candidates(Some("s3cret, other")), strings(&["", "s3cret", "other"]));
}

#[test]
fn password_list_is_trimmed_and_ordered() {
    assert_eq!(parse_password_list(" a , b,,c "), strings(&["a", "b", "c"]));
    assert_eq!(parse_password_list("p\u{3000},  q r ,"), strings(&["p", "q r"]));
    assert_eq!(parse_password_list("single"), strings(&["single"]));
    assert!(parse_password_list("").is_empty());
}

#[test]
fn password_entries_match_split_and_trim() {
    for raw in ["x, y ,z", " ,a,\n,b\t,", "\u{2003}lead,trail\u{a0}"] {
        let expected: Vec<String> = raw
            .split(',')
            .map(|s| s.trim().to_string())
            .filter(|s| !s.is_empty())
            .collect();
        assert_eq!(parse_password_list(raw), expected);
    }
}

#[test]
fn trimming_characters() {
    let cs: Vec<char> = "  a b \n".chars().collect();
    assert_eq!(trim_chars(&cs), vec!['a', ' ', 'b']);
    let ws: Vec<char> = " \t".chars().collect();
    assert_eq!(trim_chars(&ws), Vec::<char>::new());
}

#[test]
fn backends_for_archive_kinds() {
    assert_eq!(backend_for(FileType::Zip).unwrap(), Backend::Zip);
    assert_eq!(backend_for(FileType::Rar).unwrap(), Backend::Rar);
    assert_eq!(backend_for(FileType::SevenZ).unwrap(), Backend::SevenZ);
    assert_eq!(backend_for(FileType::Multi).unwrap(), Backend::Unar);
    assert_eq!(backend_for(FileType::Sfx).unwrap(), Backend::Unar);
}

#[test]
fn non_archives_are_unsupported() {
    for t in [FileType::Mp4, FileType::TS, FileType::Unknown] {
        match backend_for(t) {
            Err(AutoarcError::UnsupportedFileType(u)) => assert_eq!(u, t),
            other => panic!("unexpected {other:?}"),
        }
    }
}

#[test]
fn nested_tasks_keep_the_root() {
    let tasks = nested_tasks(strings(&["/o/a.zip", "/o/b.rar"]), "/in/top.7z");
    assert_eq!(tasks.len(), 2);
    assert_eq!(tasks[0].archive_path, "/o/a.zip");
    assert_eq!(tasks[1].archive_path, "/o/b.rar");
    assert!(tasks.iter().all(|t| t.root == "/in/top.7z"));
    assert!(nested_tasks(Vec::new(), "/r").is_empty());
}

#[test]
fn entry_roles() {
    assert_eq!(entry_role(FileType::Zip), EntryRole::Nested);
    assert_eq!(entry_role(FileType::Sfx), EntryRole::Nested);
    assert_eq!(entry_role(FileType::TS), EntryRole::Video);
    assert_eq!(entry_role(FileType::Unknown), EntryRole::Plain);
}

fn drive(count: usize, mut outcomes: Vec<Result<ExtractOutcome, &'static str>>) -> (Vec<usize>, Result<Vec<String>, Option<&'static str>>) {
    let mut trial = PasswordTrial::new(count);
    let mut tried = Vec::new();
    outcomes.reverse();
    loop {
        match trial.next() {
            TrialNext::Exhausted => return (tried, Err(None)),
            TrialNext::Try(i) => {
                tried.push(i);
                let attempt = outcomes.pop().expect("an outcome for each try");
                if let Some(end) = trial.record(attempt) {
                    return (tried, end.map_err(Some));
                }
            }
        }
    }
}

#[test]
fn trial_stops_at_first_success() {
    let (tried, end) = drive(
        4,
        vec![
            Ok(ExtractOutcome::BadPassword),
            Ok(ExtractOutcome::BadPassword),
            Ok(ExtractOutcome::Success(strings(&["n.zip"]))),
        ],
    );
    assert_eq!(tried, vec![0, 1, 2]);
    assert_eq!(end, Ok(strings(&["n.zip"])));
}

#[test]
fn trial_exhausts_when_every_password_is_rejected() {
    let (tried, end) = drive(2, vec![Ok(ExtractOutcome::BadPassword), Ok(ExtractOutcome::BadPassword)]);
    assert_eq!(tried, vec![0, 1]);
    assert_eq!(end, Err(None));
    let (tried, end) = drive(0, vec![]);
    assert!(tried.is_empty());
    assert_eq!(end, Err(None));
}

#[test]
fn trial_stops_at_hard_error() {
    let (tried, end) = drive(3, vec![Ok(ExtractOutcome::BadPassword), Err("corrupt")]);
    assert_eq!(tried, vec![0, 1]);
    assert_eq!(end, Err(Some("corrupt")));
}

#[test]
fn probe_failures_per_backend() {
    assert_eq!(ZipExtractor::password_check(ZipProbe::Passed), PasswordCheck::Accepted);
    assert_eq!(ZipExtractor::password_check(ZipProbe::InvalidPassword), PasswordCheck::Rejected);
    assert_eq!(ZipExtractor::password_check(ZipProbe::Io), PasswordCheck::Rejected);
    assert_eq!(
        ZipExtractor::password_check(ZipProbe::Other("bad".to_string())),
        PasswordCheck::Failed("bad".to_string())
    );
    assert_eq!(RarExtractor::probe_failure(RarProbeCode::BadPassword), ProbeFailure::WrongPassword);
    assert_eq!(RarExtractor::probe_failure(RarProbeCode::Other), ProbeFailure::Fatal);
    assert_eq!(SevenzExtractor::password_check(SevenzProbe::Passed), PasswordCheck::Accepted);
    assert_eq!(SevenzExtractor::password_check(SevenzProbe::MaybeBadPassword), PasswordCheck::Rejected);
    assert_eq!(SevenzExtractor::password_check(SevenzProbe::PasswordRequired), PasswordCheck::Rejected);
    assert_eq!(
        SevenzExtractor::password_check(SevenzProbe::Other("x".to_string())),
        PasswordCheck::Failed("x".to_string())
    );
}

fn zip_bytes(password: Option<&str>) -> Vec<u8> {
    let mut w = zip::ZipWriter::new(std::io::Cursor::new(Vec::new()));
    let options = zip::write::SimpleFileOptions::default();
    let options = match password {
        Some(p) => options.with_aes_encryption(zip::AesMode::Aes256, p),
        None => options,
    };
    w.start_file("a.txt", options).unwrap();
    w.write_all(b"hello, archive").unwrap();
    w.finish().unwrap().into_inner()
}

#[test]
fn zip_password_probe_on_real_archives() {
    let locked = zip_bytes(Some("secret"));
    assert_eq!(ZipExtractor::check_password(&locked, b"secret"), PasswordCheck::Accepted);
    assert_eq!(ZipExtractor::check_password(&locked, b"wrong"), PasswordCheck::Rejected);
    let open = zip_bytes(None);
    assert_eq!(ZipExtractor::check_password(&open, b""), PasswordCheck::Accepted);
    assert_eq!(ZipExtractor::check_password(&open, b"anything"), PasswordCheck::Accepted);
    assert!(matches!(ZipExtractor::check_password(b"not a zip", b""), PasswordCheck::Failed(_)));
}

#[test]
fn sevenz_password_probe_on_bad_bytes() {
    assert!(matches!(SevenzExtractor::check_password(b"not a 7z archive", ""), PasswordCheck::Failed(_)));
    assert!(matches!(SevenzExtractor::check_password(b"", "pw"), PasswordCheck::Failed(_)));
}

#[test]
fn zip_entry_names() {
    assert_eq!(ZipExtractor::entry_name(b"dir/ok.txt", None).as_deref(), Some("dir/ok.txt"));
    assert_eq!(ZipExtractor::entry_name(b"\xffname", Some("safe".to_string())).as_deref(), Some("safe"));
    assert_eq!(ZipExtractor::entry_name(b"\xff", None), None);
}

#[test]
fn zip_and_rar_entry_targets_skip_metadata_and_directories() {
    assert_eq!(ZipExtractor::entry_target("/a/b.zip", "__MACOSX/._x", false), None);
    assert_eq!(ZipExtractor::entry_target("/a/b.zip", "d/", true), None);
    assert_eq!(ZipExtractor::entry_target("/a/b.zip", "d/x.txt", false).as_deref(), Some("/a/b_out/d/x.txt"));
    assert_eq!(ZipExtractor::entry_target("/a/b.zip", "/etc/passwd", false).as_deref(), Some("/a/b_out/etc/passwd"));
    assert_eq!(ZipExtractor::entry_target("/a/b.zip", "../y", false).as_deref(), Some("/a/b_out/../y"));
    assert_eq!(SevenzExtractor::entry_target("/a/b.7z", "x/../y", false, true).as_deref(), Some("/a/b_out/x/../y"));
    assert_eq!(RarExtractor::entry_target("/a/b.rar", "x/__MACOSX", false), None);
    assert_eq!(RarExtractor::entry_target("/a/b.rar", "x", true), None);
    assert_eq!(RarExtractor::entry_target("/a/b.rar", "x", false), Some(create_outpath("/a/b.rar", "x")));
    assert!(is_macos_metadata("a/__MACOSX/b"));
    assert!(!is_macos_metadata("__MACOS"));
}

#[test]
fn sevenz_entries_and_probe() {
    assert_eq!(SevenzExtractor::probe_request(true, 1), Some(1));
    assert_eq!(SevenzExtractor::probe_request(true, 0), None);
    assert_eq!(SevenzExtractor::probe_request(false, 9), None);
    assert_eq!(SevenzExtractor::probe_request(true, 10), Some(10));
    assert_eq!(SevenzExtractor::probe_request(true, 1024), Some(1024));
    assert_eq!(SevenzExtractor::probe_request(true, 5000), Some(1024));
    assert_eq!(SevenzExtractor::entry_target("/a/b.7z", "f", false, false), None);
    assert_eq!(SevenzExtractor::entry_target("/a/b.7z", "f", true, true), None);
    assert_eq!(SevenzExtractor::entry_target("/a/b.7z", "__MACOSX/f", false, true).as_deref(), Some("/a/b_out/__MACOSX/f"));
}

#[test]
fn unar_output_directory() {
    assert_eq!(UnarExtractor::output_dir("/a/part.z01").as_deref(), Some("/a/part_out"));
    assert_eq!(UnarExtractor::output_dir("setup.exe").as_deref(), Some("setup_out"));
    assert_eq!(UnarExtractor::output_dir("/"), None);
    assert_eq!(UnarExtractor::entry_path("/a/part_out", "in/x.zip"), "/a/part_out/in/x.zip");
    assert_eq!(UnarExtractor::entry_path("/a/part_out", "/abs/x"), "/abs/x");
    assert_eq!(UnarExtractor::entry_path("/a/part_out", "../x"), "/a/part_out/../x");
}

#[test]
fn unar_exit_status_reading() {
    assert_eq!(UnarExtractor::exit_check(true), PasswordCheck::Accepted);
    assert_eq!(UnarExtractor::exit_check(false), PasswordCheck::Rejected);
}

#[test]
fn unar_directory_is_the_outpath_directory() {
    for p in ["/a/part.z01", "rel/set.7z.001", "x.exe"] {
        let dir = UnarExtractor::output_dir(p).unwrap();
        assert_eq!(UnarExtractor::entry_path(&dir, "e/f"), create_outpath(p, "e/f"));
    }
}

#[test]
fn lsar_listing_skips_header() {
    let out = parse_lsar_output(b"Archive: x.zip\nfoo.txt\nsub/bar.mp4\n").unwrap();
    assert_eq!(out, strings(&["foo.txt", "sub/bar.mp4"]));
    let out = parse_lsar_output(b"Archive: x.rar\r\na\r\nb").unwrap();
    assert_eq!(out, strings(&["a", "b"]));
    assert_eq!(parse_lsar_output(b"Archive: only\n").unwrap(), Vec::<String>::new());
    assert_eq!(parse_lsar_output(b"").unwrap(), Vec::<String>::new());
    assert_eq!(parse_lsar_output(b"Archive\n\xff\n"), None);
}

#[test]
fn lines_follow_str_lines() {
    for text in ["a\r\nb\rc\n", "", "\n", "x", "x\n\ny", "\r\n\r\n", "t\r"] {
        let expected: Vec<String> = text.lines().map(|l| l.to_string()).collect();
        assert_eq!(lines_of(text), expected);
    }
}

#[test]
fn task_labels() {
    let nested = TaskParams { archive_path: "/d/x_out/n.7z".to_string(), root: "/d/x.zip".to_string() };
    assert_eq!(nested.display("/d"), "x_out/n.7z <- x.zip");
    let top = TaskParams::top_level("/d/x.zip");
    assert_eq!(top.archive_path, "/d/x.zip");
    assert_eq!(top.root, "/d/x.zip");
    assert_eq!(top.display("/d"), "x.zip");
    assert_eq!(top.display("rel"), "/d/x.zip");
}

#[test]
fn initial_scan_triage() {
    for t in [FileType::Zip, FileType::Rar, FileType::SevenZ, FileType::Multi, FileType::Sfx] {
        assert_eq!(triage(t), Triage::Extract);
    }
    assert_eq!(triage(FileType::Mp4), Triage::RenameVideo);
    assert_eq!(triage(FileType::TS), Triage::RenameVideo);
    assert_eq!(triage(FileType::Unknown), Triage::Skip);
}

#[test]
fn scan_depth_and_output_folders() {
    assert!(!should_descend("sub", 1, 1));
    assert!(should_descend("sub", 1, 2));
    assert!(!should_descend("sub", 2, 2));
    assert!(should_descend("sub", 1000, usize::MAX));
    assert!(!should_descend("foo_out", 1, usize::MAX));
    assert!(should_descend("foo_outx", 1, 3));
    assert!(should_descend("out", 1, 3));
    assert!(!should_descend("_out", 1, 3));
}

#[test]
fn split_set_volumes() {
    assert!(is_volume_of("/d/big.z01", "/d/big.zip"));
    assert!(is_volume_of("/d/big.z01", "/d/big.z02"));
    assert!(is_volume_of("/d/big.z01", "/d/big.z10"));
    assert!(!is_volume_of("/d/big.z01", "/d/big.z01"));
    assert!(!is_volume_of("/d/big.z01", "/e/big.z02"));
    assert!(!is_volume_of("/d/big.z01", "/d/other.z02"));
    assert!(!is_volume_of("/d/big.z01", "/d/big.zx"));
    assert!(is_volume_of("/d/seven.7z.001", "/d/seven.7z.002"));
    assert!(!is_volume_of("/d/seven.7z.001", "/d/seven.7z"));
    assert!(!is_volume_of("/d/seven.7z.001", "/d/seven.7z.00a"));
    assert!(!is_volume_of("/d/plain.zip", "/d/plain.z02"));
}

#[test]
fn later_volumes_of_known_sets() {
    let firsts = vec!["/d/big.z01".to_string(), "/d/s.7z.001".to_string()];
    assert!(is_later_volume("/d/big.zip", &firsts));
    assert!(is_later_volume("/d/s.7z.003", &firsts));
    assert!(!is_later_volume("/d/big.z01", &firsts));
    assert!(!is_later_volume("/d/other.zip", &firsts));
    assert!(!is_later_volume("/d/big.zip", &[]));
}

#[test]
fn confirmation_answers() {
    for yes in ["", "\n", "y", "Y\n", "yes", " maybe "] {
        assert!(accepts_answer(yes), "{yes:?}");
    }
    for no in ["n", "N\n", " no ", "No", "nO"] {
        assert!(!accepts_answer(no), "{no:?}");
    }
}

#[test]
fn plan_tags() {
    assert_eq!(kind_tag(FileType::Zip), "zip");
    assert_eq!(kind_tag(FileType::Multi), "multi");
    assert_eq!(kind_tag(FileType::SevenZ), "7z");
    assert_eq!(kind_tag(FileType::Sfx), "sfx");
    assert_eq!(kind_tag(FileType::Rar), "rar");
}

#[test]
fn workload_finishes_when_every_task_settled() {
    let mut w = Workload::new();
    w.add(2);
    assert_eq!(w.pending(), 2);
    // The first task succeeds and queues one nested archive.
    assert!(!w.finish_succeeded(1));
    assert_eq!(w.pending(), 2);
    assert!(!w.finish_failed());
    assert!(w.finish_succeeded(0));
    assert_eq!(w.pending(), 0);
    assert_eq!(w.stats(), Stats { succeeded: 2, failed: 1, videos_renamed: 0 });
}

#[test]
fn ledger_summary_counts_every_task_once() {
    // Three queued, one of them never sent; one nested archive found.
    let mut w = Workload::new();
    w.add(3);
    assert!(!w.drop_unsent());
    w.note_video_renamed();
    assert!(!w.finish_succeeded(1));
    w.note_video_renamed();
    assert!(!w.finish_failed());
    assert!(w.finish_succeeded(0));
    let s = w.stats();
    assert_eq!(s, Stats { succeeded: 2, failed: 1, videos_renamed: 2 });
    // 3 queued + 1 nested = 2 succeeded + 1 failed + 1 dropped.
    assert_eq!(s.finished() + 1, 4);
}

#[test]
fn ledger_last_drop_ends_the_run() {
    let mut w = Workload::new();
    w.add(1);
    assert!(!w.finish_succeeded(2));
    assert!(!w.drop_unsent());
    assert!(w.drop_unsent());
}

#[test]
fn split_set_row_sums_parts_and_sizes() {
    let files = vec![
        ("/d/set.7z.001".to_string(), 10u64),
        ("/d/set.7z.002".to_string(), 20u64),
        ("/d/set.7z.003".to_string(), 30u64),
        ("/d/other.7z.002".to_string(), 99u64),
        ("/e/set.7z.002".to_string(), 99u64),
    ];
    assert_eq!(volume_set("/d/set.7z.001", 10, &files), (3, 60));
    assert_eq!(volume_set("/d/x.zip", 5, &files), (1, 5));
    let big = vec![("/d/set.7z.002".to_string(), u64::MAX)];
    assert_eq!(volume_set("/d/set.7z.001", 10, &big), (2, u64::MAX));
}

#[test]
fn stats_counters() {
    let mut s = Stats::new();
    s.task_succeeded();
    s.task_succeeded();
    s.task_failed();
    s.note_video_renamed();
    assert_eq!(s, Stats { succeeded: 2, failed: 1, videos_renamed: 1 });
    assert_eq!(s.finished(), 3);
}

#[test]
fn depth_zero_or_recursive_is_unlimited() {
    assert_eq!(effective_depth(0, false), usize::MAX);
    assert_eq!(effective_depth(3, true), usize::MAX);
    assert_eq!(effective_depth(3, false), 3);
    assert_eq!(effective_depth(1, false), 1);
}

#[test]
fn io_error_keeps_path_and_source() {
    let err = AutoarcError::io("/x/y", std::io::Error::new(std::io::ErrorKind::NotFound, "gone"));
    match err {
        AutoarcError::Io { path, source } => {
            assert_eq!(path, "/x/y");
            assert_eq!(source.kind(), std::io::ErrorKind::NotFound);
        }
        other => panic!("unexpected {other:?}"),
    }
}
