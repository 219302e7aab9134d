use vstd::prelude::*;
use crate::config::{ReleaseFinderConfig, ReleaseFinderConfigView, assets_request_spec, releases_request_spec};
use crate::error::FindError;
use crate::http::{HttpRequest, HttpRequestView};
use crate::manager::{ReleaseManager, ReleaseManagerView};
use crate::records::{ReleaseRecord, ReleaseRecordView, json_asset_list, json_release_list, parse_release_list, release_views};
use crate::select::{ScanEvent, ScanStep, advance, advance_scan, has_release_fields, lemma_advance_scan, scan_done, opt_index, pick_update};

verus! {

/// A release search in progress. It is driven by handing it the response to the
/// request it last asked for: first the release list, then the asset list of each
/// release the scan chooses, in scan order.
pub struct ReleaseSearch {
    pub config: ReleaseFinderConfig,
    pub listed: bool,
    pub records: Vec<ReleaseRecord>,
    pub next: usize,
    pub stable_pos: Option<usize>,
    pub prerelease_pos: Option<usize>,
    pub awaiting: Option<usize>,
    pub stable: Option<ReleaseManager>,
    pub prerelease: Option<ReleaseManager>,
}

pub struct ReleaseSearchView {
    pub config: ReleaseFinderConfigView,
    /// The release list has arrived.
    pub listed: bool,
    pub records: Seq<ReleaseRecordView>,
    /// Where the scan goes on.
    pub next: int,
    pub stable_pos: Option<int>,
    pub prerelease_pos: Option<int>,
    /// The entry whose asset list was asked for last.
    pub awaiting: Option<int>,
    pub stable: Option<ReleaseManagerView>,
    pub prerelease: Option<ReleaseManagerView>,
}

pub open spec fn manager_opt_view(m: Option<ReleaseManager>) -> Option<ReleaseManagerView> {
    match m {
        Some(m) => Some(m@),
        None => None,
    }
}

impl View for ReleaseSearch {
    type V = ReleaseSearchView;

    open spec fn view(&self) -> ReleaseSearchView {
        ReleaseSearchView {
            config: self.config@,
            listed: self.listed,
            records: release_views(self.records@),
            next: self.next as int,
            stable_pos: opt_index(self.stable_pos),
            prerelease_pos: opt_index(self.prerelease_pos),
            awaiting: opt_index(self.awaiting),
            stable: manager_opt_view(self.stable),
            prerelease: manager_opt_view(self.prerelease),
        }
    }
}

/// What the search does next, in its mathematical form.
pub enum SearchOutcome {
    Fetch(ReleaseSearchView, HttpRequestView),
    Done(Result<(Option<ReleaseManagerView>, Option<ReleaseManagerView>), FindError>),
}

/// What the search does next: ask for one more request, or end with its result.
pub enum SearchStep {
    Fetch(ReleaseSearch, HttpRequest),
    Done(Result<(Option<ReleaseManager>, Option<ReleaseManager>), FindError>),
}

pub open spec fn search_step_view(s: SearchStep) -> SearchOutcome {
    match s {
        SearchStep::Fetch(n, q) => SearchOutcome::Fetch(n@, q@),
        SearchStep::Done(Ok((a, b))) => SearchOutcome::Done(Ok((manager_opt_view(a), manager_opt_view(b)))),
        SearchStep::Done(Err(e)) => SearchOutcome::Done(Err(e)),
    }
}

pub open spec fn response_view(r: Result<String, FindError>) -> Result<Seq<char>, FindError> {
    match r {
        Ok(b) => Ok(b@),
        Err(e) => Err(e),
    }
}

/// The state before any response.
pub open spec fn initial_search(c: ReleaseFinderConfigView) -> ReleaseSearchView {
    ReleaseSearchView {
        config: c,
        listed: false,
        records: Seq::empty(),
        next: 0,
        stable_pos: None,
        prerelease_pos: None,
        awaiting: None,
        stable: None,
        prerelease: None,
    }
}

/// The scan goes on from `v.next`: the next chosen entry's asset list is asked for,
/// or the search ends.
pub open spec fn continue_spec(v: ReleaseSearchView) -> SearchOutcome {
    match advance(v.records, v.config.allow_prerelease, v.next, v.stable_pos, v.prerelease_pos) {
        ScanStep::Finished => SearchOutcome::Done(Ok((v.stable, v.prerelease))),
        ScanStep::Failed(e) => SearchOutcome::Done(Err(e)),
        ScanStep::Pick(k) => {
            let (s, p) = pick_update(v.records, k, v.stable_pos, v.prerelease_pos);
            SearchOutcome::Fetch(
                ReleaseSearchView { next: k + 1, stable_pos: s, prerelease_pos: p, awaiting: Some(k), ..v },
                assets_request_spec(v.config, v.records[k].assets_url.unwrap()),
            )
        },
    }
}

/// What the search does with the response to its last request.
pub open spec fn on_response_spec(v: ReleaseSearchView, response: Result<Seq<char>, FindError>) -> SearchOutcome {
    match response {
        Err(e) => SearchOutcome::Done(Err(e)),
        Ok(body) => if !v.listed {
            match json_release_list(body) {
                None => SearchOutcome::Done(Err(FindError::MalformedResponse)),
                Some(recs) => continue_spec(ReleaseSearchView { listed: true, records: recs, ..initial_search(v.config) }),
            }
        } else {
            match json_asset_list(body) {
                None => SearchOutcome::Done(Err(FindError::MalformedResponse)),
                Some(assets) => {
                    let k = v.awaiting.unwrap();
                    let m = ReleaseManagerView {
                        client_name: v.config.client,
                        auth_token: v.config.auth_token,
                        version_tag: v.records[k].tag_name.unwrap(),
                        assets,
                    };
                    if v.stable_pos == Some(k) {
                        continue_spec(ReleaseSearchView { awaiting: None, stable: Some(m), ..v })
                    } else {
                        continue_spec(ReleaseSearchView { awaiting: None, prerelease: Some(m), ..v })
                    }
                },
            }
        },
    }
}

/// Every asset list the search asks for belongs to an entry that the scan takes at
/// that point: a prerelease only when prereleases are sought and none was taken yet,
/// a stable release only when none was taken yet. Once nothing more is sought, no
/// further request is made.
pub proof fn law_asks_only_for_chosen(v: ReleaseSearchView)
    requires
        v.next >= 0,
    ensures
        continue_spec(v) matches SearchOutcome::Fetch(n, q) ==> {
            &&& n.awaiting matches Some(k)
            &&& v.next <= k < v.records.len()
            &&& q == assets_request_spec(v.config, v.records[k].assets_url.unwrap())
            &&& v.records[k].prerelease == Some(true) ==> v.config.allow_prerelease && v.prerelease_pos is None
            &&& v.records[k].prerelease == Some(false) ==> v.stable_pos is None
        },
        scan_done(v.config.allow_prerelease, v.stable_pos, v.prerelease_pos) ==> continue_spec(v)
            == SearchOutcome::Done(Ok((v.stable, v.prerelease))),
{
    lemma_advance_scan(v.records, v.config.allow_prerelease, v.next, v.stable_pos, v.prerelease_pos);
}

impl ReleaseSearch {
    /// A search that is waiting for a response: before the release list, nothing is
    /// scanned; after it, the entry whose asset list was asked for is a chosen one.
    pub open spec fn well_formed(&self) -> bool {
        &&& self.next <= self.records@.len()
        &&& !self.listed ==> self.awaiting is None && self.next == 0
        &&& self.listed ==> {
            &&& self.awaiting matches Some(k)
            &&& k < self.records@.len()
            &&& has_release_fields(release_views(self.records@)[k as int])
            &&& self.stable_pos == Some(k) || self.prerelease_pos == Some(k)
            &&& self.stable_pos matches Some(j) ==> j < self.records@.len()
            &&& self.prerelease_pos matches Some(j) ==> j < self.records@.len()
        }
    }

    /// Takes the response to the last request and says what comes next.
    pub fn on_response(self, response: Result<String, FindError>) -> (r: SearchStep)
        requires
            self.well_formed(),
        ensures
            search_step_view(r) == on_response_spec(self@, response_view(response)),
            r matches SearchStep::Fetch(n, _) ==> n.well_formed(),
    {
        let body = match response {
            Ok(body) => body,
            Err(e) => {
                return SearchStep::Done(Err(e));
            },
        };
        if !self.listed {
            let records = match parse_release_list(body.as_str()) {
                Some(records) => records,
                None => {
                    return SearchStep::Done(Err(FindError::MalformedResponse));
                },
            };
            let started = ReleaseSearch {
                config: self.config,
                listed: true,
                records,
                next: 0,
                stable_pos: None,
                prerelease_pos: None,
                awaiting: None,
                stable: None,
                prerelease: None,
            };
            started.go_on()
        } else {
            let k = self.awaiting.unwrap();
            let ghost recs = release_views(self.records@);
            assert(recs[k as int] == self.records@[k as int]@);
            let tag = match &self.records[k].tag_name {
                Some(t) => t,
                None => {
                    return SearchStep::Done(Err(FindError::MissingField));
                },
            };
            let m = match ReleaseManager::from_asset_list(&self.config.client, &self.config.auth_token, tag, body.as_str()) {
                Ok(m) => m,
                Err(e) => {
                    return SearchStep::Done(Err(e));
                },
            };
            let mut s = self;
            s.awaiting = None;
            if s.stable_pos == Some(k) {
                s.stable = Some(m);
            } else {
                s.prerelease = Some(m);
            }
            s.go_on()
        }
    }

    /// Goes on with the scan from `next`.
    fn go_on(self) -> (r: SearchStep)
        requires
            self.listed,
            self.next <= self.records@.len(),
            self.stable_pos matches Some(k) ==> k < self.records@.len(),
            self.prerelease_pos matches Some(k) ==> k < self.records@.len(),
        ensures
            search_step_view(r) == continue_spec(self@),
            r matches SearchStep::Fetch(n, _) ==> n.well_formed(),
    {
        let ghost recs = release_views(self.records@);
        let step = advance_scan(&self.records, self.config.allow_prerelease, self.next, self.stable_pos, self.prerelease_pos);
        proof {
            lemma_advance_scan(recs, self.config.allow_prerelease, self.next as int, opt_index(self.stable_pos), opt_index(self.prerelease_pos));
        }
        match step {
            ScanEvent::Finished => SearchStep::Done(Ok((self.stable, self.prerelease))),
            ScanEvent::Failed(e) => SearchStep::Done(Err(e)),
            ScanEvent::Pick(k) => {
                let n = self.records.len();
                assert(recs.len() == n);
                assert(recs[k as int] == self.records@[k as int]@);
                let url = match &self.records[k].assets_url {
                    Some(u) => u,
                    None => {
                        return SearchStep::Done(Err(FindError::MissingField));
                    },
                };
                let q = self.config.assets_request(url);
                let mut s = self;
                if s.records[k].prerelease == Some(true) {
                    s.prerelease_pos = Some(k);
                } else {
                    s.stable_pos = Some(k);
                }
                s.next = k + 1;
                s.awaiting = Some(k);
                SearchStep::Fetch(s, q)
            },
        }
    }
}

impl ReleaseFinderConfig {
    /// Starts the search: the returned request asks for the repository's release
    /// list, and its response goes to [`ReleaseSearch::on_response`].
    pub fn find_release(self) -> (r: (ReleaseSearch, HttpRequest))
        ensures
            r.0@ == initial_search(self@),
            r.0.well_formed(),
            r.1@ == releases_request_spec(self@),
    {
        let q = self.releases_request();
        let search = ReleaseSearch {
            config: self,
            listed: false,
            records: Vec::new(),
            next: 0,
            stable_pos: None,
            prerelease_pos: None,
            awaiting: None,
            stable: None,
            prerelease: None,
        };
        assert(search@.records =~= Seq::<ReleaseRecordView>::empty());
        (search, q)
    }
}

} // verus!
