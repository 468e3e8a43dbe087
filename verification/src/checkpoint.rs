//! Checkpoints: the state that compaction makes of all events.

use crate::paths;
use crate::paths::join_path;
use crate::text::own;
use crate::time::Moment;
use std::collections::{BTreeMap, BTreeSet};
use vstd::prelude::*;

verus! {

/// State produced by compaction. Issues are keyed by the number of their UUID.
#[derive(Debug, Clone)]
pub struct CheckpointState {
    pub next_display_id: i64,
    pub next_comment_id: i64,
    pub display_id_map: BTreeMap<u128, i64>,
    pub locks: BTreeMap<i64, LockEntry>,
    pub issues: BTreeMap<u128, CompactIssue>,
    pub skew_warnings: Vec<SkewWarning>,
    pub compaction_lease: Option<CompactionLease>,
    pub unsigned_event_warnings: Vec<UnsignedEventWarning>,
    /// The last event that was processed, kept with the state so that the two agree.
    pub watermark: Option<OrderingKey>,
}

/// Where an event stands among all events.
#[derive(Debug, Clone, PartialEq)]
pub struct OrderingKey {
    pub timestamp: Moment,
    pub agent_id: String,
    pub agent_seq: u64,
}

/// The model of an ordering key.
pub open spec fn key_view(k: OrderingKey) -> (Moment, Seq<char>, u64) {
    (k.timestamp, k.agent_id@, k.agent_seq)
}

/// A lock in the checkpoint state.
#[derive(Debug, Clone, PartialEq)]
pub struct LockEntry {
    pub agent_id: String,
    pub branch: Option<String>,
    pub claimed_at: Moment,
}

/// An issue in the checkpoint state. Other issues are named by the number of their UUID.
#[derive(Debug, Clone)]
pub struct CompactIssue {
    pub uuid: u128,
    pub display_id: Option<i64>,
    pub title: String,
    pub description: Option<String>,
    pub status: String,
    pub priority: String,
    pub parent_uuid: Option<u128>,
    pub created_by: String,
    pub created_at: Moment,
    pub updated_at: Moment,
    pub closed_at: Option<Moment>,
    pub labels: BTreeSet<String>,
    pub blockers: BTreeSet<u128>,
    pub related: BTreeSet<u128>,
    pub milestone_uuid: Option<u128>,
}

/// Lease that keeps two compactions from running at once.
#[derive(Debug, Clone, PartialEq)]
pub struct CompactionLease {
    pub agent_id: String,
    pub acquired_at: Moment,
    pub expires_at: Moment,
    /// The process that acquired the lease, by which a stale one is seen.
    pub pid: Option<u32>,
}

/// Warning about clock skew.
#[derive(Debug, Clone, PartialEq)]
pub struct SkewWarning {
    pub agent_id: String,
    pub skew_seconds: i64,
    pub event_timestamp: Moment,
}

/// Warning about an event without a signature.
#[derive(Debug, Clone, PartialEq)]
pub struct UnsignedEventWarning {
    pub agent_id: String,
    pub agent_seq: u64,
    pub timestamp: Moment,
}

/// Whether a state is that before any event.
pub open spec fn is_initial(s: CheckpointState) -> bool {
    &&& s.next_display_id == 1
    &&& s.next_comment_id == 1
    &&& s.display_id_map@ == Map::<u128, i64>::empty()
    &&& s.locks@ == Map::<i64, LockEntry>::empty()
    &&& s.issues@ == Map::<u128, CompactIssue>::empty()
    &&& s.skew_warnings@.len() == 0
    &&& s.compaction_lease is None
    &&& s.unsigned_event_warnings@.len() == 0
    &&& s.watermark is None
}

impl Default for CheckpointState {
    fn default() -> (r: Self)
        ensures
            is_initial(r),
    {
        CheckpointState {
            next_display_id: 1,
            next_comment_id: 1,
            display_id_map: BTreeMap::new(),
            locks: BTreeMap::new(),
            issues: BTreeMap::new(),
            skew_warnings: Vec::new(),
            compaction_lease: None,
            unsigned_event_warnings: Vec::new(),
            watermark: None,
        }
    }
}

/// The file of the checkpoint state.
pub fn checkpoint_path(cache_dir: &str) -> (r: String)
    ensures
        r@ == paths::joined(paths::joined(cache_dir@, "checkpoint"@), "state.json"@),
{
    join_path(join_path(cache_dir, "checkpoint").as_str(), "state.json")
}

/// The file that older hubs keep the watermark in.
pub fn watermark_path(cache_dir: &str) -> (r: String)
    ensures
        r@ == paths::joined(paths::joined(cache_dir@, "checkpoint"@), "watermark.json"@),
{
    join_path(join_path(cache_dir, "checkpoint").as_str(), "watermark.json")
}

/// The checkpoint state that was stored, or the initial one where none was.
pub fn read_checkpoint(stored: Option<CheckpointState>) -> (r: CheckpointState)
    ensures
        match stored {
            Some(s) => r == s,
            None => is_initial(r),
        },
{
    match stored {
        Some(s) => s,
        None => CheckpointState::default(),
    }
}

fn clone_key(k: &OrderingKey) -> (r: OrderingKey)
    ensures
        key_view(r) == key_view(*k),
{
    OrderingKey {
        timestamp: k.timestamp,
        agent_id: own(k.agent_id.as_str()),
        agent_seq: k.agent_seq,
    }
}

/// The model of an optional ordering key.
pub open spec fn opt_key(k: Option<OrderingKey>) -> Option<(Moment, Seq<char>, u64)> {
    match k {
        Some(key) => Some(key_view(key)),
        None => None,
    }
}

/// The model of an optional borrowed ordering key.
pub open spec fn opt_key_ref(k: Option<&OrderingKey>) -> Option<(Moment, Seq<char>, u64)> {
    match k {
        Some(key) => Some(key_view(*key)),
        None => None,
    }
}

/// The watermark that counts: the one in the state or, where there is none, the one in
/// a file of its own.
pub open spec fn current_watermark(
    in_state: Option<(Moment, Seq<char>, u64)>,
    legacy: Option<(Moment, Seq<char>, u64)>,
) -> Option<(Moment, Seq<char>, u64)> {
    if in_state is Some {
        in_state
    } else {
        legacy
    }
}

/// The watermark: the one in the state or, where there is none, the one that older hubs
/// keep in a file of its own.
pub fn read_watermark(state: &CheckpointState, legacy: Option<&OrderingKey>) -> (r: Option<OrderingKey>)
    ensures
        opt_key(r) == current_watermark(opt_key(state.watermark), opt_key_ref(legacy)),
{
    if let Some(k) = &state.watermark {
        return Some(clone_key(k));
    }
    match legacy {
        Some(k) => Some(clone_key(k)),
        None => None,
    }
}

/// Sets the watermark, with nothing else in the state changed.
pub fn write_watermark(state: &mut CheckpointState, key: &OrderingKey)
    ensures
        opt_key(final(state).watermark) == Some(key_view(*key)),
        (CheckpointState { watermark: old(state).watermark, ..*final(state) }) == *old(state),
{
    state.watermark = Some(clone_key(key));
}

/// A watermark that was written is read back, whatever an older hub has left behind.
pub proof fn law_written_watermark_is_read(
    before: CheckpointState,
    after: CheckpointState,
    key: (Moment, Seq<char>, u64),
    legacy: Option<(Moment, Seq<char>, u64)>,
)
    requires
        opt_key(after.watermark) == Some(key),
        (CheckpointState { watermark: before.watermark, ..after }) == before,
    ensures
        current_watermark(opt_key(after.watermark), legacy) == Some(key),
        after.next_display_id == before.next_display_id,
        after.next_comment_id == before.next_comment_id,
        after.display_id_map == before.display_id_map,
        after.locks == before.locks,
        after.issues == before.issues,
{
}

/// The state that is read is the stored one; without one it is that before any event: nothing in
/// it, and the first numbers still to be given.
pub proof fn law_stored_state_is_read(stored: Option<CheckpointState>, r: CheckpointState)
    requires
        call_ensures(read_checkpoint, (stored,), r),
    ensures
        stored matches Some(s) ==> r == s,
        stored is None ==> r.next_display_id == 1 && r.next_comment_id == 1 && r.issues@
            == Map::<u128, CompactIssue>::empty() && r.locks@ == Map::<i64, LockEntry>::empty()
            && r.display_id_map@ == Map::<u128, i64>::empty() && r.watermark is None
            && r.compaction_lease is None,
{
}

/// The watermark of the state counts, where it has one; else that of an older hub, where there is
/// one; else there is none.
pub proof fn law_own_watermark_counts(
    state: &CheckpointState,
    legacy: Option<&OrderingKey>,
    r: Option<OrderingKey>,
)
    requires
        call_ensures(read_watermark, (state, legacy), r),
    ensures
        state.watermark matches Some(k) ==> (r matches Some(w) && key_view(w) == key_view(k)),
        state.watermark is None ==> (legacy matches Some(k) ==> (r matches Some(w) && key_view(w)
            == key_view(*k))),
        r is None <==> state.watermark is None && legacy is None,
{
}

} // verus!
