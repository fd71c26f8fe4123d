//! How a stored stream record is found again: by the id in its manifest,
//! the id it last ran under, or the id derived from its camera id.
use vstd::prelude::*;

verus! {

/// What the lookup rules read of a stored stream record.
#[derive(Debug, Clone, PartialEq, Eq)]
pub struct StoredRecordFacts {
    pub camera_id: String,
    /// The record holds a requested manifest.
    pub has_manifest: bool,
    pub internal: bool,
    /// The id in the manifest's identity.
    pub manifest_id: Option<u128>,
    /// The id the record says it runs under.
    pub stream_id: Option<u128>,
    /// The id it last ran under.
    pub last_stream_id: Option<u128>,
    /// The id derived from its camera id.
    pub derived_id: u128,
    /// Its manifest holds a camera calibration.
    pub has_calibration: bool,
}

/// A user's stored stream: it has a manifest and is not internal.
pub open spec fn user_record(r: StoredRecordFacts) -> bool {
    r.has_manifest && !r.internal
}

/// The id a record stands for: its own, else the one derived from its
/// camera id.
pub open spec fn record_id(r: StoredRecordFacts) -> u128 {
    match r.stream_id {
        Some(id) => id,
        None => r.derived_id,
    }
}

/// A record an edit of stream `id` applies to: a user's record whose
/// manifest, last run or camera id names `id`.
pub open spec fn edits_stream(r: StoredRecordFacts, id: u128) -> bool {
    user_record(r) && (r.manifest_id == Some(id) || r.last_stream_id == Some(id) || r.derived_id == id)
}

/// The first record from `i` on that satisfies the rule, or the length.
pub open spec fn first_edited(rs: Seq<StoredRecordFacts>, id: u128, i: int) -> int
    decreases rs.len() - i,
{
    if i < 0 || i >= rs.len() {
        rs.len() as int
    } else if edits_stream(rs[i], id) {
        i
    } else {
        first_edited(rs, id, i + 1)
    }
}

/// The stored record an edit of stream `id` goes to, if any: the first
/// that names it.
pub fn record_for_stream_edit(records: &Vec<StoredRecordFacts>, id: u128) -> (r: Option<usize>)
    ensures
        match r {
            Some(k) => k == first_edited(records@, id, 0) && k < records@.len(),
            None => first_edited(records@, id, 0) == records@.len(),
        },
{
    let mut i: usize = 0;
    while i < records.len()
        invariant
            i <= records@.len(),
            first_edited(records@, id, 0) == first_edited(records@, id, i as int),
        decreases records@.len() - i,
    {
        let r = &records[i];
        if r.has_manifest && !r.internal && (r.manifest_id == Some(id) || r.last_stream_id == Some(id) || r.derived_id
            == id) {
            return Some(i);
        }
        i = i + 1;
    }
    None
}

/// The first user's record from `i` on whose id is `id`, or the length.
pub open spec fn first_with_id(rs: Seq<StoredRecordFacts>, id: u128, i: int) -> int
    decreases rs.len() - i,
{
    if i < 0 || i >= rs.len() {
        rs.len() as int
    } else if user_record(rs[i]) && record_id(rs[i]) == id {
        i
    } else {
        first_with_id(rs, id, i + 1)
    }
}

/// The camera an update of stream `id` is stored under: the camera of the
/// first user's record with that id, else the running stream's camera.
pub fn existing_stream_camera(records: &Vec<StoredRecordFacts>, id: u128, running_camera: Option<String>) -> (r: Option<String>)
    ensures
        first_with_id(records@, id, 0) < records@.len() ==> r == Some(records@[first_with_id(records@, id, 0)].camera_id),
        first_with_id(records@, id, 0) >= records@.len() ==> r == running_camera,
{
    let mut i: usize = 0;
    while i < records.len()
        invariant
            i <= records@.len(),
            first_with_id(records@, id, 0) == first_with_id(records@, id, i as int),
        decreases records@.len() - i,
    {
        let r = &records[i];
        let rid = match r.stream_id {
            Some(s) => s,
            None => r.derived_id,
        };
        if r.has_manifest && !r.internal && rid == id {
            return Some(r.camera_id.clone());
        }
        i = i + 1;
    }
    running_camera
}

/// The records a new identity is checked against: every user's record but
/// the one of the stream itself.
pub fn other_stream_record(r: &StoredRecordFacts, id: u128) -> (b: bool)
    ensures
        b == (user_record(*r) && record_id(*r) != id),
{
    let rid = match r.stream_id {
        Some(s) => s,
        None => r.derived_id,
    };
    r.has_manifest && !r.internal && rid != id
}

/// The first record from `i` on that names stream `id` and holds a
/// calibration, or the length.
pub open spec fn first_calibrated(rs: Seq<StoredRecordFacts>, id: u128, i: int) -> int
    decreases rs.len() - i,
{
    if i < 0 || i >= rs.len() {
        rs.len() as int
    } else if edits_stream(rs[i], id) && rs[i].has_calibration {
        i
    } else {
        first_calibrated(rs, id, i + 1)
    }
}

/// The stored record whose calibration a replay of stream `id` reuses
/// (when the running stream has none): the first that names the stream
/// and holds one.
pub fn calibration_record(records: &Vec<StoredRecordFacts>, id: u128) -> (r: Option<usize>)
    ensures
        match r {
            Some(k) => k == first_calibrated(records@, id, 0) && k < records@.len(),
            None => first_calibrated(records@, id, 0) == records@.len(),
        },
{
    let mut i: usize = 0;
    while i < records.len()
        invariant
            i <= records@.len(),
            first_calibrated(records@, id, 0) == first_calibrated(records@, id, i as int),
        decreases records@.len() - i,
    {
        let r = &records[i];
        if r.has_manifest && !r.internal && (r.manifest_id == Some(id) || r.last_stream_id == Some(id) || r.derived_id
            == id) && r.has_calibration {
            return Some(i);
        }
        i = i + 1;
    }
    None
}

} // verus!
