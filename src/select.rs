use vstd::prelude::*;
use crate::error::FindError;
use crate::records::{ReleaseRecord, ReleaseRecordView, release_views};

verus! {

/// A record carries what is needed to build a release handle from it.
pub open spec fn has_release_fields(r: ReleaseRecordView) -> bool {
    r.tag_name.is_some() && r.assets_url.is_some()
}

/// The scan has found all it looks for.
pub open spec fn scan_done(allow: bool, st: Option<int>, pre: Option<int>) -> bool {
    st.is_some() && (pre.is_some() || !allow)
}

/// The front-to-back scan from position `i`, with the stable and prerelease
/// positions found so far.
pub open spec fn scan(
    recs: Seq<ReleaseRecordView>,
    allow: bool,
    i: int,
    st: Option<int>,
    pre: Option<int>,
) -> Result<(Option<int>, Option<int>), FindError>
    decreases recs.len() - i,
{
    if i < 0 || i >= recs.len() || scan_done(allow, st, pre) {
        Ok((st, pre))
    } else {
        match recs[i].prerelease {
            None => Err(FindError::MissingField),
            Some(flag) => {
                let take_pre = allow && pre.is_none() && flag;
                let take_st = st.is_none() && !flag;
                if (take_pre || take_st) && !has_release_fields(recs[i]) {
                    Err(FindError::MissingField)
                } else {
                    scan(
                        recs,
                        allow,
                        i + 1,
                        if take_st { Some(i) } else { st },
                        if take_pre { Some(i) } else { pre },
                    )
                }
            },
        }
    }
}

/// Positions of the latest stable and (when allowed) latest prerelease entry.
pub open spec fn select_spec(recs: Seq<ReleaseRecordView>, allow: bool) -> Result<(Option<int>, Option<int>), FindError> {
    scan(recs, allow, 0, None, None)
}

pub open spec fn opt_index(o: Option<usize>) -> Option<int> {
    match o {
        Some(i) => Some(i as int),
        None => None,
    }
}

pub open spec fn selection_view(r: Result<(Option<usize>, Option<usize>), FindError>) -> Result<(Option<int>, Option<int>), FindError> {
    match r {
        Ok((s, p)) => Ok((opt_index(s), opt_index(p))),
        Err(e) => Err(e),
    }
}

/// What the scan meets next, going on from a position.
pub enum ScanStep {
    /// The entry at this position is chosen (as stable or as prerelease).
    Pick(int),
    /// The scan is over: nothing more is sought, or the entries are exhausted.
    Finished,
    /// An examined entry lacks a field the scan needs.
    Failed(FindError),
}

/// Goes on with the scan from position `i` up to the next chosen entry.
pub open spec fn advance(recs: Seq<ReleaseRecordView>, allow: bool, i: int, st: Option<int>, pre: Option<int>) -> ScanStep
    decreases recs.len() - i,
{
    if i < 0 || i >= recs.len() || scan_done(allow, st, pre) {
        ScanStep::Finished
    } else {
        match recs[i].prerelease {
            None => ScanStep::Failed(FindError::MissingField),
            Some(flag) => {
                if (allow && pre.is_none() && flag) || (st.is_none() && !flag) {
                    if has_release_fields(recs[i]) {
                        ScanStep::Pick(i)
                    } else {
                        ScanStep::Failed(FindError::MissingField)
                    }
                } else {
                    advance(recs, allow, i + 1, st, pre)
                }
            },
        }
    }
}

/// The positions after entry `k` has been chosen: it fills the prerelease slot when
/// it is a prerelease, the stable slot otherwise.
pub open spec fn pick_update(recs: Seq<ReleaseRecordView>, k: int, st: Option<int>, pre: Option<int>) -> (Option<int>, Option<int>) {
    if recs[k].prerelease == Some(true) {
        (st, Some(k))
    } else {
        (Some(k), pre)
    }
}

/// The scan is the succession of its steps: going on from `i` gives what the next
/// step says, and a chosen entry is one the scan takes, with its fields present.
pub proof fn lemma_advance_scan(recs: Seq<ReleaseRecordView>, allow: bool, i: int, st: Option<int>, pre: Option<int>)
    requires
        0 <= i,
    ensures
        advance(recs, allow, i, st, pre) matches ScanStep::Finished ==> scan(recs, allow, i, st, pre) == Ok::<(Option<int>, Option<int>), FindError>((st, pre)),
        advance(recs, allow, i, st, pre) matches ScanStep::Failed(e) ==> scan(recs, allow, i, st, pre) == Err::<(Option<int>, Option<int>), FindError>(e),
        advance(recs, allow, i, st, pre) matches ScanStep::Pick(k) ==> {
            &&& i <= k < recs.len()
            &&& has_release_fields(recs[k])
            &&& recs[k].prerelease matches Some(flag)
            &&& (allow && pre.is_none() && flag) || (st.is_none() && !flag)
            &&& scan(recs, allow, i, st, pre) == scan(recs, allow, k + 1, pick_update(recs, k, st, pre).0, pick_update(recs, k, st, pre).1)
        },
    decreases recs.len() - i,
{
    if i < recs.len() && !scan_done(allow, st, pre) && recs[i].prerelease is Some {
        let flag = recs[i].prerelease.unwrap();
        if !((allow && pre.is_none() && flag) || (st.is_none() && !flag)) {
            lemma_advance_scan(recs, allow, i + 1, st, pre);
        }
    }
}

/// Position-level form of [`ScanStep`].
pub enum ScanEvent {
    Pick(usize),
    Finished,
    Failed(FindError),
}

pub open spec fn scan_event_view(e: ScanEvent) -> ScanStep {
    match e {
        ScanEvent::Pick(k) => ScanStep::Pick(k as int),
        ScanEvent::Finished => ScanStep::Finished,
        ScanEvent::Failed(e) => ScanStep::Failed(e),
    }
}

/// One step of the scan: from position `from`, with the positions found so far,
/// finds the next entry to choose, or says that the scan is over or has failed.
pub fn advance_scan(records: &Vec<ReleaseRecord>, allow_prerelease: bool, from: usize, st: Option<usize>, pre: Option<usize>) -> (r: ScanEvent)
    ensures
        scan_event_view(r) == advance(release_views(records@), allow_prerelease, from as int, opt_index(st), opt_index(pre)),
{
    let ghost recs = release_views(records@);
    if st.is_some() && (pre.is_some() || !allow_prerelease) {
        return ScanEvent::Finished;
    }
    let mut i: usize = from;
    while i < records.len()
        invariant
            recs == release_views(records@),
            from <= i,
            !scan_done(allow_prerelease, opt_index(st), opt_index(pre)),
            advance(recs, allow_prerelease, from as int, opt_index(st), opt_index(pre)) == advance(
                recs,
                allow_prerelease,
                i as int,
                opt_index(st),
                opt_index(pre),
            ),
        decreases records@.len() - i,
    {
        let rec = &records[i];
        assert(recs[i as int] == rec@);
        let flag = match rec.prerelease {
            Some(f) => f,
            None => {
                return ScanEvent::Failed(FindError::MissingField);
            },
        };
        if (allow_prerelease && pre.is_none() && flag) || (st.is_none() && !flag) {
            if rec.tag_name.is_some() && rec.assets_url.is_some() {
                return ScanEvent::Pick(i);
            } else {
                return ScanEvent::Failed(FindError::MissingField);
            }
        }
        i = i + 1;
    }
    ScanEvent::Finished
}

/// Scans the release entries in order and returns the positions of the first
/// stable entry and, when `allow_prerelease` is set, of the first prerelease entry.
/// The scan stops as soon as nothing more is sought; an examined entry without a
/// prerelease flag, or a chosen entry without tag or asset-list URL, is an error.
pub fn select_releases(records: &Vec<ReleaseRecord>, allow_prerelease: bool) -> (r: Result<(Option<usize>, Option<usize>), FindError>)
    ensures
        selection_view(r) == select_spec(release_views(records@), allow_prerelease),
        r matches Ok((s, p)) ==> (s matches Some(k) ==> k < records@.len()) && (p matches Some(k) ==> k < records@.len()),
{
    let ghost recs = release_views(records@);
    let mut st: Option<usize> = None;
    let mut pre: Option<usize> = None;
    let mut i: usize = 0;
    loop
        invariant
            recs == release_views(records@),
            0 <= i <= records@.len(),
            select_spec(recs, allow_prerelease) == scan(recs, allow_prerelease, i as int, opt_index(st), opt_index(pre)),
            st matches Some(k) ==> k < records@.len(),
            pre matches Some(k) ==> k < records@.len(),
        decreases records@.len() - i,
    {
        let step = advance_scan(records, allow_prerelease, i, st, pre);
        proof {
            lemma_advance_scan(recs, allow_prerelease, i as int, opt_index(st), opt_index(pre));
        }
        match step {
            ScanEvent::Finished => {
                return Ok((st, pre));
            },
            ScanEvent::Failed(e) => {
                return Err(e);
            },
            ScanEvent::Pick(k) => {
                let n = records.len();
                assert(recs.len() == n);
                assert(recs[k as int] == records@[k as int]@);
                if records[k].prerelease == Some(true) {
                    pre = Some(k);
                } else {
                    st = Some(k);
                }
                i = k + 1;
            },
        }
    }
}

/// `pos` names an entry that carries tag and asset-list URL.
pub open spec fn complete_at(recs: Seq<ReleaseRecordView>, pos: Option<int>) -> bool {
    pos matches Some(k) ==> 0 <= k < recs.len() && has_release_fields(recs[k])
}

proof fn lemma_scan_picks_complete(recs: Seq<ReleaseRecordView>, allow: bool, i: int, st: Option<int>, pre: Option<int>)
    requires
        complete_at(recs, st),
        complete_at(recs, pre),
    ensures
        scan(recs, allow, i, st, pre) matches Ok((s, p)) ==> complete_at(recs, s) && complete_at(recs, p),
    decreases recs.len() - i,
{
    if 0 <= i < recs.len() && !scan_done(allow, st, pre) && recs[i].prerelease.is_some() {
        let flag = recs[i].prerelease.unwrap();
        let take_pre = allow && pre.is_none() && flag;
        let take_st = st.is_none() && !flag;
        if !((take_pre || take_st) && !has_release_fields(recs[i])) {
            lemma_scan_picks_complete(
                recs,
                allow,
                i + 1,
                if take_st { Some(i) } else { st },
                if take_pre { Some(i) } else { pre },
            );
        }
    }
}

/// Every position that a successful selection names carries tag and asset-list URL.
pub proof fn lemma_selection_complete(recs: Seq<ReleaseRecordView>, allow: bool)
    ensures
        select_spec(recs, allow) matches Ok((s, p)) ==> complete_at(recs, s) && complete_at(recs, p),
{
    lemma_scan_picks_complete(recs, allow, 0, None, None);
}

/// Position of the first entry at or after `i` whose prerelease flag is `flag`.
pub open spec fn first_with_flag(recs: Seq<ReleaseRecordView>, flag: bool, i: int) -> Option<int>
    decreases recs.len() - i,
{
    if i < 0 || i >= recs.len() {
        None
    } else if recs[i].prerelease == Some(flag) {
        Some(i)
    } else {
        first_with_flag(recs, flag, i + 1)
    }
}

/// Every entry has a prerelease flag, a tag and an asset-list URL.
pub open spec fn well_formed_releases(recs: Seq<ReleaseRecordView>) -> bool {
    forall|j: int| 0 <= j < recs.len() ==> #[trigger] recs[j].prerelease.is_some() && has_release_fields(recs[j])
}

proof fn lemma_first_with_flag(recs: Seq<ReleaseRecordView>, flag: bool, i: int)
    requires
        0 <= i,
    ensures
        first_with_flag(recs, flag, i) matches Some(k) ==> i <= k < recs.len() && recs[k].prerelease == Some(flag)
            && forall|j: int| i <= j < k ==> recs[j].prerelease != Some(flag),
        first_with_flag(recs, flag, i) is None ==> forall|j: int| i <= j < recs.len() ==> recs[j].prerelease != Some(flag),
    decreases recs.len() - i,
{
    if i < recs.len() && recs[i].prerelease != Some(flag) {
        lemma_first_with_flag(recs, flag, i + 1);
    }
}

proof fn lemma_scan_well_formed(recs: Seq<ReleaseRecordView>, allow: bool, i: int, st: Option<int>, pre: Option<int>)
    requires
        well_formed_releases(recs),
        0 <= i <= recs.len(),
    ensures
        scan(recs, allow, i, st, pre) == Ok::<(Option<int>, Option<int>), FindError>((
            if st.is_some() { st } else { first_with_flag(recs, false, i) },
            if allow && pre.is_none() { first_with_flag(recs, true, i) } else { pre },
        )),
    decreases recs.len() - i,
{
    if i < recs.len() && !scan_done(allow, st, pre) {
        assert(recs[i].prerelease.is_some() && has_release_fields(recs[i]));
        let flag = recs[i].prerelease.unwrap();
        let take_pre = allow && pre.is_none() && flag;
        let take_st = st.is_none() && !flag;
        lemma_scan_well_formed(
            recs,
            allow,
            i + 1,
            if take_st { Some(i) } else { st },
            if take_pre { Some(i) } else { pre },
        );
    }
}

/// With prereleases disabled, a well-formed list that holds a stable entry yields
/// exactly the first stable entry, and no prerelease.
pub proof fn law_stable_only(recs: Seq<ReleaseRecordView>)
    requires
        well_formed_releases(recs),
        exists|j: int| 0 <= j < recs.len() && recs[j].prerelease == Some(false),
    ensures
        select_spec(recs, false) matches Ok((Some(k), None)) && 0 <= k < recs.len()
            && recs[k].prerelease == Some(false)
            && forall|j: int| 0 <= j < k ==> recs[j].prerelease == Some(true),
{
    lemma_scan_well_formed(recs, false, 0, None, None);
    lemma_first_with_flag(recs, false, 0);
    let k = first_with_flag(recs, false, 0).unwrap();
    assert forall|j: int| 0 <= j < k implies recs[j].prerelease == Some(true) by {
        assert(recs[j].prerelease.is_some());
    }
}

/// With prereleases enabled, on a well-formed list the stable and the prerelease
/// results are each the first entry of their kind, independently of each other.
pub proof fn law_first_of_each_kind(recs: Seq<ReleaseRecordView>)
    requires
        well_formed_releases(recs),
    ensures
        select_spec(recs, true) == Ok::<(Option<int>, Option<int>), FindError>((
            first_with_flag(recs, false, 0),
            first_with_flag(recs, true, 0),
        )),
        first_with_flag(recs, false, 0) matches Some(k) ==> recs[k].prerelease == Some(false)
            && forall|j: int| 0 <= j < k ==> recs[j].prerelease == Some(true),
        first_with_flag(recs, true, 0) matches Some(k) ==> recs[k].prerelease == Some(true)
            && forall|j: int| 0 <= j < k ==> recs[j].prerelease == Some(false),
        first_with_flag(recs, false, 0) is None ==> forall|j: int| 0 <= j < recs.len() ==> recs[j].prerelease == Some(true),
        first_with_flag(recs, true, 0) is None ==> forall|j: int| 0 <= j < recs.len() ==> recs[j].prerelease == Some(false),
{
    lemma_scan_well_formed(recs, true, 0, None, None);
    lemma_first_with_flag(recs, false, 0);
    lemma_first_with_flag(recs, true, 0);
    assert forall|j: int| 0 <= j < recs.len() implies #[trigger] recs[j].prerelease.is_some() by {}
}

/// When the first entry is stable and the second a prerelease, and prereleases are
/// enabled, the scan ends after the second entry: whatever follows is never read.
pub proof fn law_scan_stops_early(recs: Seq<ReleaseRecordView>)
    requires
        recs.len() >= 2,
        recs[0].prerelease == Some(false),
        has_release_fields(recs[0]),
        recs[1].prerelease == Some(true),
        has_release_fields(recs[1]),
    ensures
        select_spec(recs, true) == Ok::<(Option<int>, Option<int>), FindError>((Some(0), Some(1))),
        select_spec(recs, true) == select_spec(recs.take(2), true),
{
    let head = recs.take(2);
    assert(head[0] == recs[0] && head[1] == recs[1]);
    assert(scan(recs, true, 2, Some(0), Some(1)) == Ok::<(Option<int>, Option<int>), FindError>((Some(0), Some(1))));
    assert(scan(recs, true, 1, Some(0), None) == scan(recs, true, 2, Some(0), Some(1)));
    assert(scan(head, true, 2, Some(0), Some(1)) == Ok::<(Option<int>, Option<int>), FindError>((Some(0), Some(1))));
    assert(scan(head, true, 1, Some(0), None) == scan(head, true, 2, Some(0), Some(1)));
}

} // verus!
