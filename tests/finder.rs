use std::cell::RefCell;

use release_finder::config::ReleaseFinderConfig;
use release_finder::error::FindError;
use release_finder::http::HttpRequest;
use release_finder::manager::ReleaseManager;
use release_finder::records::ReleaseRecord;
use release_finder::search::SearchStep;
use release_finder::select::select_releases;

const TWO_RELEASES: &str = r#"[
    {"tag_name":"v2.0","prerelease":true,"assets_url":"https://api.example/assets/20"},
    {"tag_name":"v1.5","prerelease":false,"assets_url":"https://api.example/assets/15"}
]"#;

fn record(prerelease: Option<bool>, tag: Option<&str>, url: Option<&str>) -> ReleaseRecord {
    ReleaseRecord {
        prerelease,
        tag_name: tag.map(|s| s.to_string()),
        assets_url: url.map(|s| s.to_string()),
    }
}

fn full(prerelease: bool, tag: &str) -> ReleaseRecord {
    record(Some(prerelease), Some(tag), Some("u"))
}

type Found = (Option<ReleaseManager>, Option<ReleaseManager>);

fn run<F: Fn(&HttpRequest) -> Result<String, FindError>>(c: ReleaseFinderConfig, fetch: F) -> Result<Found, FindError> {
    let (mut search, mut request) = c.find_release();
    loop {
        match search.on_response(fetch(&request)) {
            SearchStep::Fetch(next, q) => {
                search = next;
                request = q;
            }
            SearchStep::Done(r) => return r,
        }
    }
}

fn config(allow: bool) -> ReleaseFinderConfig {
    ReleaseFinderConfig::new("my-client")
        .with_author("octo")
        .with_repository("tool")
        .with_prereleases(allow)
}

fn header<'a>(q: &'a HttpRequest, name: &str) -> Option<&'a str> {
    q.headers.iter().find(|h| h.0 == name).map(|h| h.1.as_str())
}

#[test]
fn new_config_has_defaults() {
    let c = ReleaseFinderConfig::new("client-x");
    assert_eq!(c.client, "client-x");
    assert_eq!(c.auth_token, None);
    assert!(!c.allow_prerelease);
    assert_eq!(c.author, "");
    assert_eq!(c.repository, "");
}

#[test]
fn builders_set_each_field() {
    let c = ReleaseFinderConfig::new("c")
        .with_token(Some("SECRET-REDACTED"))
        .with_prereleases(true)
        .with_author("a")
        .with_repository("r");
    assert_eq!(c.auth_token.as_deref(), Some("SECRET-REDACTED"));
    assert!(c.allow_prerelease);
    assert_eq!(c.author, "a");
    assert_eq!(c.repository, "r");
    let c = c.with_token(None);
    assert_eq!(c.auth_token, None);
}

#[test]
fn releases_request_url_and_headers() {
    let q = config(false).releases_request();
    assert_eq!(q.url, "https://api.github.com/repos/octo/tool/releases");
    assert_eq!(header(&q, "Accept"), Some("application/vnd.github.v3+json"));
    assert_eq!(header(&q, "User-Agent"), Some("my-client"));
    assert_eq!(header(&q, "Authorization"), None);
    assert_eq!(q.headers.len(), 2);
}

#[test]
fn token_adds_authorization_header() {
    let q = config(false).with_token(Some("abc")).releases_request();
    assert_eq!(header(&q, "Authorization"), Some("token abc"));
    assert_eq!(q.headers.len(), 3);
}

#[test]
fn stable_only_picks_first_stable() {
    let recs = vec![full(true, "v3-rc"), full(false, "v2"), full(false, "v1")];
    assert_eq!(select_releases(&recs, false), Ok((Some(1), None)));
}

#[test]
fn with_prereleases_picks_first_of_each_kind() {
    let recs = vec![full(false, "v2"), full(false, "v1"), full(true, "v0-rc")];
    assert_eq!(select_releases(&recs, true), Ok((Some(0), Some(2))));
}

#[test]
fn no_stable_entry_gives_none() {
    let recs = vec![full(true, "a"), full(true, "b")];
    assert_eq!(select_releases(&recs, false), Ok((None, None)));
    assert_eq!(select_releases(&recs, true), Ok((None, Some(0))));
    assert_eq!(select_releases(&Vec::new(), true), Ok((None, None)));
}

#[test]
fn scan_stops_before_broken_entries() {
    let recs = vec![full(false, "v2"), full(true, "v3-rc"), record(None, None, None)];
    assert_eq!(select_releases(&recs, true), Ok((Some(0), Some(1))));
    let recs = vec![full(false, "v2"), record(None, None, None)];
    assert_eq!(select_releases(&recs, false), Ok((Some(0), None)));
}

#[test]
fn missing_flag_aborts_scan() {
    let recs = vec![record(None, Some("x"), Some("u")), full(false, "v1")];
    assert_eq!(select_releases(&recs, false), Err(FindError::MissingField));
}

#[test]
fn missing_tag_on_chosen_entry_aborts() {
    let recs = vec![record(Some(false), None, Some("u"))];
    assert_eq!(select_releases(&recs, false), Err(FindError::MissingField));
    let recs = vec![record(Some(true), Some("t"), None), full(false, "v1")];
    assert_eq!(select_releases(&recs, true), Err(FindError::MissingField));
    // a prerelease entry without fields is skipped when prereleases are not sought
    assert_eq!(select_releases(&recs, false), Ok((Some(1), None)));
}

#[test]
fn example_with_prereleases() {
    let (s, p) = config(true).select_candidates(TWO_RELEASES).unwrap();
    let s = s.unwrap();
    let p = p.unwrap();
    assert_eq!(s.tag, "v1.5");
    assert_eq!(s.assets_url, "https://api.example/assets/15");
    assert_eq!(p.tag, "v2.0");
    assert_eq!(p.assets_url, "https://api.example/assets/20");
}

#[test]
fn example_without_prereleases() {
    let (s, p) = config(false).select_candidates(TWO_RELEASES).unwrap();
    assert_eq!(s.unwrap().tag, "v1.5");
    assert!(p.is_none());
}

#[test]
fn malformed_release_list_is_rejected() {
    assert_eq!(config(false).select_candidates("not json").err(), Some(FindError::MalformedResponse));
    assert_eq!(config(false).select_candidates(r#"{"tag_name":"v1"}"#).err(), Some(FindError::MalformedResponse));
}

#[test]
fn wrong_typed_flag_is_missing_field() {
    let body = r#"[{"tag_name":"v1","prerelease":"no","assets_url":"u"}]"#;
    assert_eq!(config(false).select_candidates(body).err(), Some(FindError::MissingField));
}

fn mock_fetch<'a>(log: &'a RefCell<Vec<String>>) -> impl Fn(&HttpRequest) -> Result<String, FindError> + 'a {
    move |q: &HttpRequest| {
        log.borrow_mut().push(q.url.clone());
        if q.url.ends_with("/releases") {
            Ok(TWO_RELEASES.to_string())
        } else if q.url.ends_with("/20") {
            Ok(r#"[{"name":"pre.zip","url":"https://dl/pre"}]"#.to_string())
        } else {
            Ok(r#"[{"name":"a.zip","url":"https://dl/a"},{"url":"https://dl/x"},{"name":"b.zip","url":"https://dl/b"}]"#.to_string())
        }
    }
}

#[test]
fn find_release_with_prereleases() {
    let log = RefCell::new(Vec::new());
    let (s, p) = run(config(true), mock_fetch(&log)).unwrap();
    let s = s.unwrap();
    let p = p.unwrap();
    assert_eq!(s.get_release_tag(), "v1.5");
    assert_eq!(p.get_release_tag(), "v2.0");
    assert_eq!(s.get_asset_names(), vec!["a.zip".to_string(), "b.zip".to_string()]);
    assert_eq!(p.get_asset_names(), vec!["pre.zip".to_string()]);
    assert_eq!(log.borrow().len(), 3);
}

#[test]
fn find_release_without_prereleases_skips_prerelease_assets() {
    let log = RefCell::new(Vec::new());
    let (s, p) = run(config(false), mock_fetch(&log)).unwrap();
    assert_eq!(s.unwrap().get_release_tag(), "v1.5");
    assert!(p.is_none());
    let calls = log.borrow();
    assert_eq!(calls.len(), 2);
    assert!(!calls.iter().any(|u| u.ends_with("/20")));
}

#[test]
fn find_release_fetches_only_chosen_entries() {
    let body = r#"[
        {"tag_name":"v2","prerelease":false,"assets_url":"https://api.example/assets/a"},
        {"tag_name":"v3-rc","prerelease":true,"assets_url":"https://api.example/assets/b"},
        {"tag_name":"v1","prerelease":false,"assets_url":"https://api.example/assets/c"},
        {"broken":true}
    ]"#;
    let log = RefCell::new(Vec::new());
    let fetch = |q: &HttpRequest| {
        log.borrow_mut().push(q.url.clone());
        if q.url.ends_with("/releases") { Ok(body.to_string()) } else { Ok("[]".to_string()) }
    };
    let (s, p) = run(config(true), fetch).unwrap();
    assert_eq!(s.unwrap().get_release_tag(), "v2");
    assert_eq!(p.unwrap().get_release_tag(), "v3-rc");
    let calls = log.borrow();
    assert_eq!(calls.len(), 3);
    assert!(!calls.iter().any(|u| u.ends_with("/c")));
}

#[test]
fn find_release_passes_transport_error_on() {
    let r = run(config(true), |_q: &HttpRequest| Err(FindError::TransportError));
    assert_eq!(r.err(), Some(FindError::TransportError));
}

#[test]
fn find_release_rejects_malformed_asset_list() {
    let fetch = |q: &HttpRequest| {
        if q.url.ends_with("/releases") { Ok(TWO_RELEASES.to_string()) } else { Ok("{}".to_string()) }
    };
    assert_eq!(run(config(false), fetch).err(), Some(FindError::MalformedResponse));
}

#[test]
fn asset_requests_carry_token() {
    let q = config(false).with_token(Some("t0k")).assets_request(&"https://api.example/assets/1".to_string());
    assert_eq!(q.url, "https://api.example/assets/1");
    assert_eq!(header(&q, "Accept"), Some("application/vnd.github.v3+json"));
    assert_eq!(header(&q, "Authorization"), Some("token t0k"));
}

#[test]
fn asset_lists_are_fetched_in_scan_order() {
    let log = RefCell::new(Vec::new());
    run(config(true), mock_fetch(&log)).unwrap();
    let calls = log.borrow();
    assert_eq!(calls[0], "https://api.github.com/repos/octo/tool/releases");
    assert_eq!(calls[1], "https://api.example/assets/20");
    assert_eq!(calls[2], "https://api.example/assets/15");
}

#[test]
fn asset_fetch_error_comes_before_later_missing_field() {
    let body = r#"[
        {"tag_name":"v3-rc","prerelease":true,"assets_url":"https://api.example/assets/a"},
        {"tag_name":"v2"}
    ]"#;
    let fetch = |q: &HttpRequest| {
        if q.url.ends_with("/releases") { Ok(body.to_string()) } else { Err(FindError::TransportError) }
    };
    assert_eq!(run(config(true), fetch).err(), Some(FindError::TransportError));
    let fetch_ok = |q: &HttpRequest| {
        if q.url.ends_with("/releases") { Ok(body.to_string()) } else { Ok("[]".to_string()) }
    };
    assert_eq!(run(config(true), fetch_ok).err(), Some(FindError::MissingField));
}
