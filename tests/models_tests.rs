use juicebox_omega::config::Config;
use juicebox_omega::models::{modified_label, BatchDeleteResponse, BatchDeleteResult, FileInfo, FileListResponse, StatsResponse};
use juicebox_omega::server::{print_startup_banner, BANNER_RULE};

fn result(name: &str, success: bool) -> BatchDeleteResult {
    BatchDeleteResult {
        filename: name.to_string(),
        success,
        error: if success { None } else { Some("No such file".to_string()) },
    }
}

#[test]
fn batch_delete_counts() {
    let r = BatchDeleteResponse::from_results(vec![
        result("f1.txt", true),
        result("f2.txt", true),
        result("f3.txt", false),
    ]);
    assert_eq!(r.total, 3);
    assert_eq!(r.successful, 2);
    assert_eq!(r.failed, 1);
    assert_eq!(r.results[2].filename, "f3.txt");
    let empty = BatchDeleteResponse::from_results(vec![]);
    assert_eq!((empty.total, empty.successful, empty.failed), (0, 0, 0));
}

#[test]
fn file_list_counts_entries() {
    let list = FileListResponse::new(vec![FileInfo {
        name: "test.txt".to_string(),
        size: 12,
        modified: "2024-01-01 00:00:00".to_string(),
        is_dir: false,
    }]);
    assert_eq!(list.total, 1);
    assert_eq!(list.files[0].name, "test.txt");
    assert_eq!(FileListResponse::new(vec![]).total, 0);
}

#[test]
fn stats_count_files_only() {
    let s = StatsResponse::from_entries(&vec![(true, 5), (false, 4096), (true, 10)], "/srv".to_string());
    assert_eq!(s.total_files, 2);
    assert_eq!(s.total_size, 15);
    assert_eq!(s.files_dir, "/srv");
    let big = StatsResponse::from_entries(&vec![(true, u64::MAX), (true, 1)], "/srv".to_string());
    assert_eq!(big.total_size, u64::MAX);
}

#[test]
fn banner_shows_both_addresses() {
    let config = Config::from_settings(
        None,
        None,
        None,
        Some("0.0.0.0".to_string()),
        Some("80".to_string()),
        None,
        None,
        None,
        None,
        None,
    );
    let lines = print_startup_banner(&config, "/srv/files");
    assert_eq!(lines.len(), 6);
    assert_eq!(lines[0], "Juicebox-omega starting...");
    assert_eq!(lines[1], BANNER_RULE);
    assert_eq!(lines[2], "📡 PUBLIC FILE SERVER: http://127.0.0.1:4848");
    assert_eq!(lines[3], "🔐 ADMIN API SERVER: http://0.0.0.0:80");
    assert_eq!(lines[4], "📁 Serving files from: \"/srv/files\"");
    assert_eq!(lines[5], BANNER_RULE);
}

#[test]
fn modified_time_is_shown_in_utc() {
    assert_eq!(modified_label(Some(1431648000)), "2015-05-15 00:00:00");
    assert_eq!(modified_label(Some(0)), "1970-01-01 00:00:00");
    assert_eq!(modified_label(Some(253402300799)), "9999-12-31 23:59:59");
    assert_eq!(modified_label(None), "Unknown");
    assert_eq!(modified_label(Some(u64::MAX)), "Unknown");
    assert_eq!(modified_label(Some(i64::MAX as u64)), "Unknown");
    let info = FileInfo::new("a.txt".to_string(), 3, Some(86400), false);
    assert_eq!(info.modified, "1970-01-02 00:00:00");
    assert_eq!(info.name, "a.txt");
}
