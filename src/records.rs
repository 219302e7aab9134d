use vstd::prelude::*;

verus! {

/// The fields of one release entry that the search reads.
#[derive(Debug)]
pub struct ReleaseRecord {
    pub prerelease: Option<bool>,
    pub tag_name: Option<String>,
    pub assets_url: Option<String>,
}

/// Mathematical view of a [`ReleaseRecord`].
pub struct ReleaseRecordView {
    pub prerelease: Option<bool>,
    pub tag_name: Option<Seq<char>>,
    pub assets_url: Option<Seq<char>>,
}

pub open spec fn opt_str_view(o: Option<String>) -> Option<Seq<char>> {
    match o {
        Some(s) => Some(s@),
        None => None,
    }
}

impl View for ReleaseRecord {
    type V = ReleaseRecordView;

    open spec fn view(&self) -> ReleaseRecordView {
        ReleaseRecordView {
            prerelease: self.prerelease,
            tag_name: opt_str_view(self.tag_name),
            assets_url: opt_str_view(self.assets_url),
        }
    }
}

/// The fields of one asset entry that the library reads.
#[derive(Debug)]
pub struct AssetRecord {
    pub name: Option<String>,
    pub url: Option<String>,
}

/// Mathematical view of an [`AssetRecord`].
pub struct AssetRecordView {
    pub name: Option<Seq<char>>,
    pub url: Option<Seq<char>>,
}

impl View for AssetRecord {
    type V = AssetRecordView;

    open spec fn view(&self) -> AssetRecordView {
        AssetRecordView { name: opt_str_view(self.name), url: opt_str_view(self.url) }
    }
}

pub open spec fn release_views(v: Seq<ReleaseRecord>) -> Seq<ReleaseRecordView> {
    v.map_values(|r: ReleaseRecord| r@)
}

pub open spec fn asset_views(v: Seq<AssetRecord>) -> Seq<AssetRecordView> {
    v.map_values(|a: AssetRecord| a@)
}

/// The fields of one entry of an API response array that the library reads.
pub struct JsonEntry {
    pub prerelease: Option<bool>,
    pub tag_name: Option<String>,
    pub assets_url: Option<String>,
    pub name: Option<String>,
    pub url: Option<String>,
}

pub struct JsonEntryView {
    pub prerelease: Option<bool>,
    pub tag_name: Option<Seq<char>>,
    pub assets_url: Option<Seq<char>>,
    pub name: Option<Seq<char>>,
    pub url: Option<Seq<char>>,
}

impl View for JsonEntry {
    type V = JsonEntryView;

    open spec fn view(&self) -> JsonEntryView {
        JsonEntryView {
            prerelease: self.prerelease,
            tag_name: opt_str_view(self.tag_name),
            assets_url: opt_str_view(self.assets_url),
            name: opt_str_view(self.name),
            url: opt_str_view(self.url),
        }
    }
}

/// The entries of a JSON text read as an array, or `None` when it is not one.
pub uninterp spec fn json_entries(text: Seq<char>) -> Option<Seq<JsonEntryView>>;

/// Relies on `serde_json::from_str::<Vec<serde_json::Value>>`: it succeeds exactly
/// when the text is one JSON array, and the result depends on the text alone. Each
/// element's "prerelease" is read with `Value::as_bool`, its "tag_name",
/// "assets_url", "name" and "url" with `Value::as_str`, after `Value`'s index, which
/// gives `Null` for a missing key or a non-object.
#[verifier::external_body]
fn parse_entries(text: &str) -> (r: Option<Vec<JsonEntry>>)
    ensures
        r is None ==> json_entries(text@) is None,
        r matches Some(v) ==> json_entries(text@) == Some(v@.map_values(|e: JsonEntry| e@)),
{
    let values: Vec<serde_json::Value> = serde_json::from_str(text).ok()?;
    Some(values.iter().map(|v| JsonEntry {
        prerelease: v["prerelease"].as_bool(),
        tag_name: v["tag_name"].as_str().map(String::from),
        assets_url: v["assets_url"].as_str().map(String::from),
        name: v["name"].as_str().map(String::from),
        url: v["url"].as_str().map(String::from),
    }).collect())
}

pub open spec fn release_of_entry(e: JsonEntryView) -> ReleaseRecordView {
    ReleaseRecordView { prerelease: e.prerelease, tag_name: e.tag_name, assets_url: e.assets_url }
}

pub open spec fn asset_of_entry(e: JsonEntryView) -> AssetRecordView {
    AssetRecordView { name: e.name, url: e.url }
}

/// A JSON text read as an array of release entries.
pub open spec fn json_release_list(text: Seq<char>) -> Option<Seq<ReleaseRecordView>> {
    match json_entries(text) {
        Some(es) => Some(es.map_values(|e: JsonEntryView| release_of_entry(e))),
        None => None,
    }
}

/// A JSON text read as an array of asset entries.
pub open spec fn json_asset_list(text: Seq<char>) -> Option<Seq<AssetRecordView>> {
    match json_entries(text) {
        Some(es) => Some(es.map_values(|e: JsonEntryView| asset_of_entry(e))),
        None => None,
    }
}

/// Reads a release-list response body.
pub fn parse_release_list(text: &str) -> (r: Option<Vec<ReleaseRecord>>)
    ensures
        r is None ==> json_release_list(text@) is None,
        r matches Some(v) ==> json_release_list(text@) == Some(release_views(v@)),
{
    let entries = parse_entries(text)?;
    let ghost es = entries@.map_values(|e: JsonEntry| e@);
    let mut out: Vec<ReleaseRecord> = Vec::new();
    let mut i: usize = 0;
    while i < entries.len()
        invariant
            es == entries@.map_values(|e: JsonEntry| e@),
            0 <= i <= entries@.len(),
            release_views(out@) =~= es.take(i as int).map_values(|e: JsonEntryView| release_of_entry(e)),
        decreases entries@.len() - i,
    {
        let e = &entries[i];
        let ghost before = out@;
        let rec = ReleaseRecord { prerelease: e.prerelease, tag_name: e.tag_name.clone(), assets_url: e.assets_url.clone() };
        assert(rec@ == release_of_entry(es[i as int]));
        out.push(rec);
        assert(release_views(out@) =~= release_views(before).push(rec@));
        assert(es.take(i as int + 1) =~= es.take(i as int).push(es[i as int]));
        i = i + 1;
    }
    assert(es.take(entries@.len() as int) =~= es);
    Some(out)
}

/// Reads an asset-list response body.
pub fn parse_asset_list(text: &str) -> (r: Option<Vec<AssetRecord>>)
    ensures
        r is None ==> json_asset_list(text@) is None,
        r matches Some(v) ==> json_asset_list(text@) == Some(asset_views(v@)),
{
    let entries = parse_entries(text)?;
    let ghost es = entries@.map_values(|e: JsonEntry| e@);
    let mut out: Vec<AssetRecord> = Vec::new();
    let mut i: usize = 0;
    while i < entries.len()
        invariant
            es == entries@.map_values(|e: JsonEntry| e@),
            0 <= i <= entries@.len(),
            asset_views(out@) =~= es.take(i as int).map_values(|e: JsonEntryView| asset_of_entry(e)),
        decreases entries@.len() - i,
    {
        let e = &entries[i];
        let ghost before = out@;
        let rec = AssetRecord { name: e.name.clone(), url: e.url.clone() };
        assert(rec@ == asset_of_entry(es[i as int]));
        out.push(rec);
        assert(asset_views(out@) =~= asset_views(before).push(rec@));
        assert(es.take(i as int + 1) =~= es.take(i as int).push(es[i as int]));
        i = i + 1;
    }
    assert(es.take(entries@.len() as int) =~= es);
    Some(out)
}

} // verus!
