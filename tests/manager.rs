use release_finder::error::FindError;
use release_finder::http::HttpRequest;
use release_finder::manager::ReleaseManager;
use release_finder::progress::DownloadProgress;

const ASSETS: &str = r#"[
    {"name":"tool-linux.tar.gz","url":"https://dl/linux"},
    {"size":12},
    {"name":"tool-win.zip","url":"https://dl/win"},
    {"name":"tool-linux.tar.gz","url":"https://dl/linux-dup"},
    {"name":"no-url.txt"}
]"#;

fn manager(token: Option<String>) -> ReleaseManager {
    ReleaseManager::from_asset_list(&"cli".to_string(), &token, &"v1.0".to_string(), ASSETS).unwrap()
}

fn header<'a>(q: &'a HttpRequest, name: &str) -> Option<&'a str> {
    q.headers.iter().find(|h| h.0 == name).map(|h| h.1.as_str())
}

#[test]
fn release_tag_is_kept() {
    assert_eq!(manager(None).get_release_tag(), "v1.0");
}

#[test]
fn asset_names_skip_unnamed_entries() {
    let m = manager(None);
    assert_eq!(m.assets.len(), 5);
    let names = m.get_asset_names();
    assert_eq!(names.len(), 4);
    assert_eq!(names, vec!["tool-linux.tar.gz", "tool-win.zip", "tool-linux.tar.gz", "no-url.txt"]);
}

#[test]
fn asset_names_of_empty_list() {
    let m = ReleaseManager::from_asset_list(&"cli".to_string(), &None, &"v".to_string(), "[]").unwrap();
    assert!(m.get_asset_names().is_empty());
}

#[test]
fn malformed_asset_list_is_rejected() {
    let r = ReleaseManager::from_asset_list(&"cli".to_string(), &None, &"v".to_string(), "[1, 2");
    assert_eq!(r.err(), Some(FindError::MalformedResponse));
}

#[test]
fn first_of_duplicate_names_wins() {
    let m = manager(None);
    assert_eq!(m.find_asset("tool-linux.tar.gz"), Some(0));
    assert_eq!(m.find_asset("tool-win.zip"), Some(2));
    assert_eq!(m.find_asset("tool"), None);
    assert_eq!(m.asset_request("tool-linux.tar.gz").unwrap().url, "https://dl/linux");
}

#[test]
fn download_request_asks_for_octet_stream() {
    let q = manager(Some("xyz".to_string())).asset_request("tool-win.zip").unwrap();
    assert_eq!(q.url, "https://dl/win");
    assert_eq!(header(&q, "Accept"), Some("application/octet-stream"));
    assert_eq!(header(&q, "User-Agent"), Some("cli"));
    assert_eq!(header(&q, "Authorization"), Some("token xyz"));
}

#[test]
fn asset_without_url_gives_no_request() {
    assert!(manager(None).asset_request("no-url.txt").is_none());
}

#[test]
fn unknown_asset_makes_no_request() {
    let m = manager(None);
    assert!(m.asset_request("missing.bin").is_none());
    assert!(m.asset_request("").is_none());
}

#[test]
fn progress_counts_grow_with_each_chunk() {
    let mut p = DownloadProgress::new(Some(9));
    let chunks: Vec<Vec<u8>> = vec![vec![1, 2, 3], vec![], vec![4, 5], vec![6, 7, 8, 9]];
    let mut reports = Vec::new();
    for c in &chunks {
        reports.push(p.receive_chunk(c));
    }
    assert_eq!(reports, vec![3, 3, 5, 9]);
    assert!(reports.windows(2).all(|w| w[0] <= w[1]));
    assert_eq!(p.total, Some(9));
    let bytes = p.into_bytes();
    assert_eq!(bytes.len(), chunks.iter().map(|c| c.len()).sum::<usize>());
    assert_eq!(bytes, vec![1, 2, 3, 4, 5, 6, 7, 8, 9]);
}

#[test]
fn progress_starts_empty() {
    let p = DownloadProgress::new(None);
    assert_eq!(p.received, 0);
    assert_eq!(p.total, None);
    assert!(p.into_bytes().is_empty());
}
