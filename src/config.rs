use vstd::prelude::*;
use crate::error::FindError;
use crate::http::{HttpRequest, HttpRequestView, api_get, api_request, JSON_MEDIA_TYPE};
use crate::records::{ReleaseRecord, ReleaseRecordView, release_views, json_release_list, opt_str_view, parse_release_list};
use crate::select::{complete_at, lemma_selection_complete, opt_index, select_releases, select_spec};

verus! {

/// What a release search needs: who asks, with which token, for which repository,
/// and whether prereleases are sought too.
pub struct ReleaseFinderConfig {
    pub auth_token: Option<String>,
    pub client: String,
    pub allow_prerelease: bool,
    pub author: String,
    pub repository: String,
}

pub struct ReleaseFinderConfigView {
    pub auth_token: Option<Seq<char>>,
    pub client: Seq<char>,
    pub allow_prerelease: bool,
    pub author: Seq<char>,
    pub repository: Seq<char>,
}

impl View for ReleaseFinderConfig {
    type V = ReleaseFinderConfigView;

    open spec fn view(&self) -> ReleaseFinderConfigView {
        ReleaseFinderConfigView {
            auth_token: opt_str_view(self.auth_token),
            client: self.client@,
            allow_prerelease: self.allow_prerelease,
            author: self.author@,
            repository: self.repository@,
        }
    }
}

/// The chosen release: its position in the release list, its tag and the URL of
/// its asset list.
#[derive(Debug)]
pub struct ReleaseCandidate {
    pub position: usize,
    pub tag: String,
    pub assets_url: String,
}

pub open spec fn candidate_view(c: Option<ReleaseCandidate>) -> Option<(int, Seq<char>, Seq<char>)> {
    match c {
        Some(c) => Some((c.position as int, c.tag@, c.assets_url@)),
        None => None,
    }
}

pub open spec fn releases_url(author: Seq<char>, repository: Seq<char>) -> Seq<char> {
    "https://api.github.com/repos/"@ + author + "/"@ + repository + "/releases"@
}

pub open spec fn releases_request_spec(c: ReleaseFinderConfigView) -> HttpRequestView {
    api_request(releases_url(c.author, c.repository), JSON_MEDIA_TYPE@, c.client, c.auth_token)
}

pub open spec fn assets_request_spec(c: ReleaseFinderConfigView, url: Seq<char>) -> HttpRequestView {
    api_request(url, JSON_MEDIA_TYPE@, c.client, c.auth_token)
}

/// Position, tag and asset-list URL of the entry at `pos`, if any.
pub open spec fn candidate_at(recs: Seq<ReleaseRecordView>, pos: Option<int>) -> Option<(int, Seq<char>, Seq<char>)> {
    match pos {
        Some(k) => Some((k, recs[k].tag_name.unwrap(), recs[k].assets_url.unwrap())),
        None => None,
    }
}

/// The stable and prerelease candidates chosen from a release-list response body.
pub open spec fn candidates_spec(c: ReleaseFinderConfigView, body: Seq<char>) -> Result<
    (Option<(int, Seq<char>, Seq<char>)>, Option<(int, Seq<char>, Seq<char>)>),
    FindError,
> {
    match json_release_list(body) {
        None => Err(FindError::MalformedResponse),
        Some(recs) => match select_spec(recs, c.allow_prerelease) {
            Ok((s, p)) => Ok((candidate_at(recs, s), candidate_at(recs, p))),
            Err(e) => Err(e),
        },
    }
}

pub open spec fn candidates_view(r: Result<(Option<ReleaseCandidate>, Option<ReleaseCandidate>), FindError>) -> Result<
    (Option<(int, Seq<char>, Seq<char>)>, Option<(int, Seq<char>, Seq<char>)>),
    FindError,
> {
    match r {
        Ok((s, p)) => Ok((candidate_view(s), candidate_view(p))),
        Err(e) => Err(e),
    }
}

impl ReleaseFinderConfig {
    /// A configuration for client `client_name`: no token, no prereleases, no repository yet.
    pub fn new(client_name: &str) -> (r: Self)
        ensures
            r@ == (ReleaseFinderConfigView {
                auth_token: None,
                client: client_name@,
                allow_prerelease: false,
                author: Seq::empty(),
                repository: Seq::empty(),
            }),
    {
        ReleaseFinderConfig {
            auth_token: None,
            client: String::from_str(client_name),
            allow_prerelease: false,
            author: String::new(),
            repository: String::new(),
        }
    }

    pub fn with_token(self, token: Option<&str>) -> (r: Self)
        ensures
            r@ == (ReleaseFinderConfigView {
                auth_token: match token { Some(t) => Some(t@), None => None },
                ..self@
            }),
    {
        let auth_token = match token {
            Some(t) => Some(String::from_str(t)),
            None => None,
        };
        ReleaseFinderConfig { auth_token, ..self }
    }

    pub fn with_prereleases(self, allow_prerelease: bool) -> (r: Self)
        ensures
            r@ == (ReleaseFinderConfigView { allow_prerelease, ..self@ }),
    {
        ReleaseFinderConfig { allow_prerelease, ..self }
    }

    pub fn with_author(self, author: &str) -> (r: Self)
        ensures
            r@ == (ReleaseFinderConfigView { author: author@, ..self@ }),
    {
        ReleaseFinderConfig { author: String::from_str(author), ..self }
    }

    pub fn with_repository(self, repository: &str) -> (r: Self)
        ensures
            r@ == (ReleaseFinderConfigView { repository: repository@, ..self@ }),
    {
        ReleaseFinderConfig { repository: String::from_str(repository), ..self }
    }

    /// The request for the repository's release list.
    pub fn releases_request(&self) -> (r: HttpRequest)
        ensures
            r@ == releases_request_spec(self@),
    {
        let url = String::from_str("https://api.github.com/repos/").concat(self.author.as_str()).concat("/").concat(
            self.repository.as_str(),
        ).concat("/releases");
        api_get(url, JSON_MEDIA_TYPE, &self.client, &self.auth_token)
    }

    /// The request for the asset list at `url`.
    pub fn assets_request(&self, url: &String) -> (r: HttpRequest)
        ensures
            r@ == assets_request_spec(self@, url@),
    {
        api_get(url.clone(), JSON_MEDIA_TYPE, &self.client, &self.auth_token)
    }

    /// Reads a release-list response body and chooses the latest stable release and,
    /// when prereleases are sought, the latest prerelease.
    pub fn select_candidates(&self, releases_body: &str) -> (r: Result<
        (Option<ReleaseCandidate>, Option<ReleaseCandidate>),
        FindError,
    >)
        ensures
            candidates_view(r) == candidates_spec(self@, releases_body@),
    {
        let records = match parse_release_list(releases_body) {
            Some(records) => records,
            None => {
                return Err(FindError::MalformedResponse);
            },
        };
        let ghost recs = json_release_list(releases_body@).unwrap();
        let (s, p) = match select_releases(&records, self.allow_prerelease) {
            Ok(sel) => sel,
            Err(e) => {
                return Err(e);
            },
        };
        proof {
            lemma_selection_complete(recs, self.allow_prerelease);
        }
        Ok((candidate_from(&records, s), candidate_from(&records, p)))
    }
}

fn candidate_from(records: &Vec<ReleaseRecord>, pos: Option<usize>) -> (r: Option<ReleaseCandidate>)
    requires
        complete_at(release_views(records@), opt_index(pos)),
    ensures
        candidate_view(r) == candidate_at(release_views(records@), opt_index(pos)),
{
    match pos {
        Some(k) => {
            let rec = &records[k];
            assert(release_views(records@)[k as int] == rec@);
            match (&rec.tag_name, &rec.assets_url) {
                (Some(tag), Some(url)) => Some(ReleaseCandidate { position: k, tag: tag.clone(), assets_url: url.clone() }),
                _ => None,
            }
        },
        None => None,
    }
}

} // verus!
