use vex_browser::downloads::{
    destination_name, temporary_path,
    attachment_filename, decode_extended_filename, response_mime_type, safe_filename,
    split_content_disposition, suggest_filename, unquote_filename, DownloadError, DownloadId,
    DownloadManager, DownloadState,
};

#[test]
fn start_and_get_download() {
    let mut mgr = DownloadManager::new();
    let id = mgr.start_download("https://example.com/file.zip", "file.zip", "/tmp");
    assert_eq!(mgr.get(id).unwrap().url, "https://example.com/file.zip");
    assert_eq!(mgr.get(id).unwrap().state, DownloadState::Pending);
    assert_eq!(mgr.get(id).unwrap().path, "/tmp/file.zip");
}

#[test]
fn update_progress() {
    let mut mgr = DownloadManager::new();
    let id = mgr.start_download("https://example.com/file.zip", "file.zip", "/tmp");
    mgr.update_progress(id, 500, Some(1000));
    assert_eq!(
        mgr.get(id).unwrap().state,
        DownloadState::InProgress { received: 500, total: Some(1000) }
    );
}

#[test]
fn cancel_prevents_completion() {
    let mut mgr = DownloadManager::new();
    let id = mgr.start_download("https://example.com/a.txt", "a.txt", "/tmp");
    mgr.cancel(id);
    mgr.mark_complete(id);
    assert_eq!(mgr.get(id).unwrap().state, DownloadState::Cancelled);
}

#[test]
fn filename_is_sanitized() {
    assert_eq!(suggest_filename("https://example.test/../../evil?.zip"), "evil");
    assert_eq!(safe_filename("..\\evil:thing?.txt"), "_evil_thing_.txt");
}

#[test]
fn attachment_filename_prefers_rfc5987_and_sanitizes_it() {
    let headers = vec![
        (
            "Content-Disposition".to_owned(),
            "attachment; filename=backup.zip; filename*=UTF-8''Vigo%20report%20%F0%9F%93%84.txt".to_owned(),
        ),
        ("content-type".to_owned(), "text/plain; charset=utf-8".to_owned()),
    ];
    assert_eq!(
        attachment_filename(&headers, "https://example.test/export"),
        Some("Vigo report 📄.txt".to_owned())
    );
    assert_eq!(response_mime_type(&headers).as_deref(), Some("text/plain"));
}

#[test]
fn inline_content_disposition_does_not_trigger_download() {
    let headers = vec![("content-disposition".to_owned(), "inline; filename=manual.pdf".to_owned())];
    assert_eq!(attachment_filename(&headers, "https://example.test/manual"), None);
}

#[test]
fn clear_finished_keeps_active_downloads() {
    let mut mgr = DownloadManager::new();
    let finished = mgr.start_download("https://a.com/a", "a", "/tmp");
    let _pending = mgr.start_download("https://b.com/b", "b", "/tmp");
    mgr.mark_complete(finished);
    mgr.clear_finished();
    assert_eq!(mgr.count(), 1);
}

#[test]
fn quoted_parameters_and_fallbacks() {
    let (disp, params) = split_content_disposition(r#" attachment ; filename="a;b\"c.txt" ; junk"#);
    assert_eq!(disp, "attachment");
    assert_eq!(params, vec![("filename".to_owned(), r#""a;b\"c.txt""#.to_owned())]);
    assert_eq!(unquote_filename(r#""a;b\"c.txt""#), "a;b\"c.txt");
    assert_eq!(decode_extended_filename("UTF-8''bad%zz"), None);
    assert_eq!(decode_extended_filename("UTF-8''%41%62"), Some("Ab".to_owned()));
    let headers = vec![("content-disposition".to_owned(), "ATTACHMENT; filename=\"\"".to_owned())];
    assert_eq!(attachment_filename(&headers, "https://x.test/dir/file.bin?x=1"), Some("file.bin".to_owned()));
    let no_ct: Vec<(String, String)> = Vec::new();
    assert_eq!(response_mime_type(&no_ct), None);
    assert_eq!(safe_filename(" .. "), "download");
    assert_eq!(safe_filename(&"x".repeat(300)).chars().count(), 180);
}

#[test]
fn remove_all_and_in_progress() {
    let mut mgr = DownloadManager::with_download_dir("d");
    assert_eq!(mgr.download_dir(), "d");
    let a = mgr.start_download("https://a.com/a", "a", "");
    let b = mgr.start_download("https://b.com/b", "b", "dir/");
    assert_eq!(mgr.get(a).unwrap().path, "a");
    assert_eq!(mgr.get(b).unwrap().path, "dir/b");
    mgr.mark_failed(a, "boom");
    assert_eq!(mgr.get(a).unwrap().state, DownloadState::Failed("boom".to_owned()));
    assert_eq!(mgr.all()[0].id, b);
    assert_eq!(mgr.in_progress().len(), 1);
    mgr.cancel(b);
    assert!(mgr.is_cancelled(b));
    assert!(mgr.remove(b));
    assert!(!mgr.is_cancelled(b));
    assert!(!mgr.remove(DownloadId(99)));
    assert_eq!(
        DownloadError::SpawnWorker("x".to_owned()).message(),
        "could not start the download worker: x"
    );
}

#[test]
fn destination_names_by_attempt() {
    assert_eq!(destination_name("report.pdf", 0), "report.pdf");
    assert_eq!(destination_name("report.pdf", 1), "report (1).pdf");
    assert_eq!(destination_name("archive.tar.gz", 2), "archive.tar (2).gz");
    assert_eq!(destination_name("README", 3), "README (3)");
    assert_eq!(destination_name("a/b.txt", 1), "a_b (1).txt");
    assert_eq!(destination_name("..", 1), "download (1)");
    assert_eq!(temporary_path("/tmp/x.zip"), "/tmp/x.zip.part");
}
