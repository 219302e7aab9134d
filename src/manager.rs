use vstd::prelude::*;
use crate::error::FindError;
use crate::http::{HttpRequest, api_get, api_request, HttpRequestView, OCTET_STREAM};
use crate::select::opt_index;
use crate::records::{AssetRecord, AssetRecordView, asset_views, json_asset_list, opt_str_view, parse_asset_list};

verus! {

/// A chosen release: the identity used to reach it, its tag, and its asset entries.
pub struct ReleaseManager {
    pub client_name: String,
    pub auth_token: Option<String>,
    pub version_tag: String,
    pub assets: Vec<AssetRecord>,
}

pub struct ReleaseManagerView {
    pub client_name: Seq<char>,
    pub auth_token: Option<Seq<char>>,
    pub version_tag: Seq<char>,
    pub assets: Seq<AssetRecordView>,
}

impl View for ReleaseManager {
    type V = ReleaseManagerView;

    open spec fn view(&self) -> ReleaseManagerView {
        ReleaseManagerView {
            client_name: self.client_name@,
            auth_token: opt_str_view(self.auth_token),
            version_tag: self.version_tag@,
            assets: asset_views(self.assets@),
        }
    }
}

/// The names of the asset entries that have one, in stored order.
pub open spec fn asset_names(assets: Seq<AssetRecordView>) -> Seq<Seq<char>> {
    assets.filter_map(|a: AssetRecordView| a.name)
}

/// Position of the first asset entry at or after `i` named `name`.
pub open spec fn first_named(assets: Seq<AssetRecordView>, name: Seq<char>, i: int) -> Option<int>
    decreases assets.len() - i,
{
    if i < 0 || i >= assets.len() {
        None
    } else if assets[i].name == Some(name) {
        Some(i)
    } else {
        first_named(assets, name, i + 1)
    }
}

/// The download request for the asset named `name`, if one is stored with a URL.
pub open spec fn asset_request_spec(m: ReleaseManagerView, name: Seq<char>) -> Option<HttpRequestView> {
    match first_named(m.assets, name, 0) {
        Some(k) => match m.assets[k].url {
            Some(u) => Some(api_request(u, OCTET_STREAM@, m.client_name, m.auth_token)),
            None => None,
        },
        None => None,
    }
}

impl ReleaseManager {
    /// Builds the handle for a release from the body of its asset-list response.
    pub fn from_asset_list(client_name: &String, auth_token: &Option<String>, version_tag: &String, assets_body: &str) -> (r: Result<
        ReleaseManager,
        FindError,
    >)
        ensures
            json_asset_list(assets_body@) is None ==> r == Err::<ReleaseManager, FindError>(FindError::MalformedResponse),
            json_asset_list(assets_body@) matches Some(a) ==> r matches Ok(m) && m@ == (ReleaseManagerView {
                client_name: client_name@,
                auth_token: opt_str_view(*auth_token),
                version_tag: version_tag@,
                assets: a,
            }),
    {
        match parse_asset_list(assets_body) {
            Some(assets) => Ok(
                ReleaseManager {
                    client_name: client_name.clone(),
                    auth_token: auth_token.clone(),
                    version_tag: version_tag.clone(),
                    assets,
                },
            ),
            None => Err(FindError::MalformedResponse),
        }
    }

    pub fn get_release_tag(&self) -> (r: &str)
        ensures
            r@ == self@.version_tag,
    {
        self.version_tag.as_str()
    }

    /// The names of the asset entries, in stored order; entries without a name are left out.
    pub fn get_asset_names(&self) -> (r: Vec<String>)
        ensures
            r@.map_values(|s: String| s@) == asset_names(self@.assets),
    {
        let ghost assets = self@.assets;
        let mut names: Vec<String> = Vec::new();
        let mut i: usize = 0;
        while i < self.assets.len()
            invariant
                assets == asset_views(self.assets@),
                0 <= i <= self.assets@.len(),
                names@.map_values(|s: String| s@) == asset_names(assets.take(i as int)),
            decreases self.assets@.len() - i,
        {
            proof {
                assets.lemma_filter_map_take_succ(|a: AssetRecordView| a.name, i as int);
            }
            let ghost before = names@;
            match &self.assets[i].name {
                Some(n) => {
                    names.push(n.clone());
                    assert(names@.map_values(|s: String| s@) =~= before.map_values(|s: String| s@).push(n@));
                },
                None => {},
            }
            i = i + 1;
        }
        assert(assets.take(self.assets@.len() as int) =~= assets);
        names
    }

    /// Position of the first asset entry named exactly `name`.
    pub fn find_asset(&self, name: &str) -> (r: Option<usize>)
        ensures
            opt_index(r) == first_named(self@.assets, name@, 0),
    {
        let ghost assets = self@.assets;
        let target = String::from_str(name);
        let mut i: usize = 0;
        while i < self.assets.len()
            invariant
                assets == asset_views(self.assets@),
                target@ == name@,
                0 <= i <= self.assets@.len(),
                first_named(assets, name@, 0) == first_named(assets, name@, i as int),
            decreases self.assets@.len() - i,
        {
            assert(assets[i as int] == self.assets@[i as int]@);
            match &self.assets[i].name {
                Some(n) => {
                    if *n == target {
                        return Some(i);
                    }
                },
                None => {},
            }
            i = i + 1;
        }
        None
    }

    /// The download request for the asset named `name`; `None` when no stored entry
    /// has that name, or the first that has it lacks a URL.
    pub fn asset_request(&self, name: &str) -> (r: Option<HttpRequest>)
        ensures
            match r {
                Some(q) => asset_request_spec(self@, name@) == Some(q@),
                None => asset_request_spec(self@, name@) is None,
            },
    {
        let found = self.find_asset(name);
        proof {
            lemma_first_named(self@.assets, name@, 0);
        }
        match found {
            Some(k) => match &self.assets[k].url {
                Some(u) => Some(api_get(u.clone(), OCTET_STREAM, &self.client_name, &self.auth_token)),
                None => None,
            },
            None => None,
        }
    }
}

proof fn lemma_first_named(assets: Seq<AssetRecordView>, name: Seq<char>, i: int)
    requires
        0 <= i,
    ensures
        first_named(assets, name, i) matches Some(k) ==> i <= k < assets.len() && assets[k].name == Some(name),
    decreases assets.len() - i,
{
    if i < assets.len() && assets[i].name != Some(name) {
        lemma_first_named(assets, name, i + 1);
    }
}

/// The asset entries that lack a name.
pub open spec fn unnamed_assets(assets: Seq<AssetRecordView>) -> Seq<AssetRecordView> {
    assets.filter(|a: AssetRecordView| a.name is None)
}

/// The asset names are the names of the named entries, in stored order: out of N
/// entries of which M lack a name, exactly N - M names come back.
pub proof fn law_asset_names(assets: Seq<AssetRecordView>)
    ensures
        asset_names(assets) == assets.filter(|a: AssetRecordView| a.name is Some).map_values(
            |a: AssetRecordView| a.name.unwrap(),
        ),
        asset_names(assets).len() == assets.len() - unnamed_assets(assets).len(),
    decreases assets.len(),
{
    reveal(Seq::filter);
    if assets.len() > 0 {
        let rest = assets.drop_last();
        law_asset_names(rest);
        let named = |a: AssetRecordView| a.name is Some;
        let unnamed = |a: AssetRecordView| a.name is None;
        let name_of = |a: AssetRecordView| a.name.unwrap();
        assert(assets.filter(named) == if named(assets.last()) {
            rest.filter(named).push(assets.last())
        } else {
            rest.filter(named)
        });
        assert(assets.filter(unnamed) == if unnamed(assets.last()) {
            rest.filter(unnamed).push(assets.last())
        } else {
            rest.filter(unnamed)
        });
        if named(assets.last()) {
            assert(rest.filter(named).push(assets.last()).map_values(name_of) =~= rest.filter(named).map_values(
                name_of,
            ).push(assets.last().name.unwrap()));
            assert(asset_names(assets) =~= asset_names(rest) + seq![assets.last().name.unwrap()]);
        } else {
            assert(asset_names(assets) == asset_names(rest));
        }
    } else {
        assert(asset_names(assets) =~= Seq::<Seq<char>>::empty());
        assert(assets.filter(|a: AssetRecordView| a.name is Some).map_values(|a: AssetRecordView| a.name.unwrap()) =~= Seq::<Seq<char>>::empty());
    }
}

} // verus!
