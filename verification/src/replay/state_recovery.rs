//! Recovery of channel state from checkpoints: options, strategies,
//! checkpoint metadata and the health of the recovery system.

use crate::error::{AblyError, AblyResult};
use crate::protocol::json::{JsonModel, JsonValue};
use crate::protocol::messages::{opt_text, PresenceMessage, PresenceView};
use crate::replay::{copy_presence, copy_state, merge_state_into, presence_views, state_models, ReplayManager, ReplayResult, StateSnapshot};
use crate::strmap::StringMap;
use crate::text::{append, decimal, owned, u128_to_string};
use vstd::prelude::*;

verus! {

/// Strategies of state recovery.
#[derive(Debug, Clone, Copy, PartialEq, Eq, Structural)]
pub enum RecoveryStrategy {
    /// Use the latest valid checkpoint.
    LatestCheckpoint,
    /// Use the last known good state.
    LastKnownGood,
    /// Replay from a timestamp.
    ReplayFromTimestamp(i64),
    /// Merge several recovery sources.
    MultiSourceMerge,
    /// Favour data integrity.
    Conservative,
}

/// Checks on recovered state.
#[derive(Debug, Clone, Copy, PartialEq, Eq, Structural)]
pub struct ValidationOptions {
    pub check_integrity: bool,
    pub validate_schema: bool,
    pub check_consistency: bool,
    /// The most messages that may be lost.
    pub max_acceptable_loss: usize,
}

/// Options of state recovery.
#[derive(Debug, Clone, Copy, PartialEq, Eq, Structural)]
pub struct RecoveryOptions {
    pub max_checkpoints: usize,
    pub checkpoint_interval_seconds: u64,
    pub max_checkpoint_age_seconds: u64,
    pub auto_recovery: bool,
    pub recovery_strategy: RecoveryStrategy,
    pub validation: ValidationOptions,
}

impl Default for RecoveryOptions {
    fn default() -> (o: RecoveryOptions)
        ensures
            o == (RecoveryOptions {
                max_checkpoints: 10,
                checkpoint_interval_seconds: 300,
                max_checkpoint_age_seconds: 86400,
                auto_recovery: true,
                recovery_strategy: RecoveryStrategy::LatestCheckpoint,
                validation: ValidationOptions {
                    check_integrity: true,
                    validate_schema: false,
                    check_consistency: true,
                    max_acceptable_loss: 100,
                },
            }),
    {
        RecoveryOptions {
            max_checkpoints: 10,
            checkpoint_interval_seconds: 300,
            max_checkpoint_age_seconds: 86400,
            auto_recovery: true,
            recovery_strategy: RecoveryStrategy::LatestCheckpoint,
            validation: ValidationOptions {
                check_integrity: true,
                validate_schema: false,
                check_consistency: true,
                max_acceptable_loss: 100,
            },
        }
    }
}

/// Why a checkpoint was made.
#[derive(Debug, Clone, Copy, PartialEq, Eq, Structural)]
pub enum CheckpointReason {
    Scheduled,
    Manual,
    PreOperation,
    PostOperation,
    Emergency,
}

/// What is known of a checkpoint.
#[derive(Debug, Clone)]
pub struct CheckpointMetadata {
    pub reason: CheckpointReason,
    /// Quality score, 0 to 100.
    pub quality_score: u8,
    pub size_bytes: usize,
    pub creation_time_ms: u64,
    pub tags: Vec<String>,
}

/// Measures of a recovery.
#[derive(Debug, Clone, Copy, PartialEq, Eq, Structural)]
pub struct RecoveryMetrics {
    pub recovery_time_ms: u64,
    pub messages_replayed: usize,
    /// Data integrity score, 0 to 100.
    pub integrity_score: u8,
    pub estimated_loss_messages: usize,
    /// Confidence in the recovery, 0 to 100.
    pub confidence_score: u8,
}

/// The health of the recovery system.
#[derive(Debug, Clone, Copy, PartialEq, Eq, Structural)]
pub enum RecoveryState {
    Healthy,
    Degraded,
    Unhealthy,
    Recovering,
    Failed,
}

/// A checkpoint of a channel's state.
#[derive(Debug)]
pub struct StateCheckpoint {
    pub id: String,
    pub channel: String,
    /// When the checkpoint was made, in milliseconds since the epoch.
    pub timestamp: i64,
    pub snapshot: StateSnapshot,
    /// A hash of the snapshot, to check it later.
    pub integrity_hash: String,
    pub metadata: CheckpointMetadata,
}

/// State recovery with checkpoints. Snapshots and replays are made by the
/// caller, which hands them in.
#[derive(Debug)]
pub struct StateRecovery {
    pub replay_manager: ReplayManager,
    pub recovery_options: RecoveryOptions,
    pub checkpoints: Vec<StateCheckpoint>,
}

impl StateRecovery {
    /// A recovery system with the default options and no checkpoint.
    pub fn new() -> (r: StateRecovery)
        ensures
            r.recovery_options == (RecoveryOptions {
                max_checkpoints: 10,
                checkpoint_interval_seconds: 300,
                max_checkpoint_age_seconds: 86400,
                auto_recovery: true,
                recovery_strategy: RecoveryStrategy::LatestCheckpoint,
                validation: ValidationOptions {
                    check_integrity: true,
                    validate_schema: false,
                    check_consistency: true,
                    max_acceptable_loss: 100,
                },
            }),
            r.checkpoints@.len() == 0,
    {
        StateRecovery { replay_manager: ReplayManager::new(), recovery_options: RecoveryOptions::default(), checkpoints: Vec::new() }
    }

    /// A recovery system with the options given and no checkpoint.
    pub fn with_options(recovery_options: RecoveryOptions) -> (r: StateRecovery)
        ensures
            r.recovery_options == recovery_options,
            r.checkpoints@.len() == 0,
    {
        StateRecovery { replay_manager: ReplayManager::new(), recovery_options, checkpoints: Vec::new() }
    }
}

/// Whole seconds of a time in milliseconds, rounded towards zero.
pub open spec fn seconds_of(ms: i64) -> int {
    if ms >= 0 { ms / 1000 } else { -((-ms) / 1000) }
}

/// The age in seconds, at `now_secs`, of a checkpoint made at `ms`; the
/// present time is taken as an `i64`.
pub open spec fn checkpoint_age(now_secs: u64, ms: i64) -> int {
    (now_secs as i64) - seconds_of(ms)
}

/// A checkpoint made at `ms` is at most `max_age` seconds old (the limit
/// taken as an `i64`).
pub open spec fn young_enough(now_secs: u64, ms: i64, max_age: u64) -> bool {
    checkpoint_age(now_secs, ms) <= (max_age as i64)
}

/// A checkpoint of `channel` that is young enough.
pub open spec fn usable(cp: StateCheckpoint, channel: Seq<char>, now_secs: u64, max_age: u64) -> bool {
    cp.channel@ == channel && young_enough(now_secs, cp.timestamp, max_age)
}

/// The position of the usable checkpoint made last, the last of them on a
/// tie.
pub open spec fn latest_usable(cps: Seq<StateCheckpoint>, channel: Seq<char>, now_secs: u64, max_age: u64) -> Option<int>
    decreases cps.len(),
{
    if cps.len() == 0 {
        None
    } else {
        let prev = latest_usable(cps.drop_last(), channel, now_secs, max_age);
        let i = cps.len() - 1;
        if usable(cps[i], channel, now_secs, max_age) {
            match prev {
                Some(j) => if cps[i].timestamp >= cps[j].timestamp { Some(i) } else { prev },
                None => Some(i),
            }
        } else {
            prev
        }
    }
}

/// The position of the usable checkpoint of best quality, the last of
/// them on a tie.
pub open spec fn best_usable(cps: Seq<StateCheckpoint>, channel: Seq<char>, now_secs: u64, max_age: u64) -> Option<int>
    decreases cps.len(),
{
    if cps.len() == 0 {
        None
    } else {
        let prev = best_usable(cps.drop_last(), channel, now_secs, max_age);
        let i = cps.len() - 1;
        if usable(cps[i], channel, now_secs, max_age) {
            match prev {
                Some(j) => if cps[i].metadata.quality_score >= cps[j].metadata.quality_score { Some(i) } else { prev },
                None => Some(i),
            }
        } else {
            prev
        }
    }
}

proof fn lemma_usable_in_range(cps: Seq<StateCheckpoint>, channel: Seq<char>, now_secs: u64, max_age: u64)
    ensures
        latest_usable(cps, channel, now_secs, max_age) matches Some(i) ==> 0 <= i < cps.len(),
        best_usable(cps, channel, now_secs, max_age) matches Some(i) ==> 0 <= i < cps.len(),
    decreases cps.len(),
{
    if cps.len() > 0 {
        lemma_usable_in_range(cps.drop_last(), channel, now_secs, max_age);
    }
}

/// Whole seconds of a time in milliseconds, rounded towards zero.
fn seconds(ms: i64) -> (s: i128)
    ensures
        s == seconds_of(ms),
{
    if ms >= 0 {
        ((ms as u64) / 1000) as i128
    } else {
        let m = (0 - (ms as i128)) as u128;
        0 - ((m / 1000) as i128)
    }
}

/// Whether a checkpoint made at `ms` is young enough.
fn is_young(now_secs: u64, ms: i64, max_age: u64) -> (b: bool)
    ensures
        b == young_enough(now_secs, ms, max_age),
{
    #[verifier::truncate]
    let now = now_secs as i64;
    #[verifier::truncate]
    let limit = max_age as i64;
    (now as i128) - seconds(ms) <= (limit as i128)
}

/// The quality of a snapshot at `now_ms`: 100, less 20 when more than a
/// day old or 10 when more than half a day; plus 10 when it holds state, 5
/// when it holds presence and 5 when it took more than a hundred messages.
pub open spec fn checkpoint_quality(snapshot: StateSnapshot, now_ms: i64) -> nat {
    let age_hours = (now_ms - snapshot.timestamp) / 3600000;
    let s1: nat = if age_hours > 24 { 80 } else if age_hours > 12 { 90 } else { 100 };
    let s2: nat = if snapshot.message_state@.dom().len() > 0 { s1 + 10 } else { s1 };
    let s3: nat = if snapshot.presence_state@.dom().len() > 0 { s2 + 5 } else { s2 };
    if snapshot.metadata.messages_processed > 100 { s3 + 5 } else { s3 }
}

/// How many values of the entries are `null`.
pub open spec fn null_count(pairs: Seq<(String, JsonValue)>) -> nat
    decreases pairs.len(),
{
    if pairs.len() == 0 {
        0
    } else {
        null_count(pairs.drop_last()) + if pairs.last().1 is Null { 1nat } else { 0nat }
    }
}

/// The integrity of a recovered state: none for an empty state, else 100
/// less five per `null` value (the product taken as a `u8`), never below
/// zero.
pub open spec fn integrity_of(state: StringMap<JsonValue>) -> nat {
    if state@.dom().len() == 0 {
        0
    } else {
        let pen = ((null_count(state.pairs()) * 5) % 256) as nat;
        if 100 >= pen { (100 - pen) as nat } else { 0 }
    }
}

/// The checkpoints young enough, in order.
pub open spec fn young_checkpoints(cps: Seq<StateCheckpoint>, now_secs: u64, max_age: u64) -> Seq<StateCheckpoint>
    decreases cps.len(),
{
    if cps.len() == 0 {
        Seq::empty()
    } else {
        let prev = young_checkpoints(cps.drop_last(), now_secs, max_age);
        if young_enough(now_secs, cps.last().timestamp, max_age) { prev.push(cps.last()) } else { prev }
    }
}

/// How many of the checkpoints are of `channel`.
pub open spec fn channel_count(cps: Seq<StateCheckpoint>, channel: Seq<char>) -> nat
    decreases cps.len(),
{
    if cps.len() == 0 {
        0
    } else {
        channel_count(cps.drop_last(), channel) + if cps.last().channel@ == channel { 1nat } else { 0nat }
    }
}

/// The checkpoints kept when at most `max` are kept per channel, the
/// first of each channel.
pub open spec fn capped_checkpoints(cps: Seq<StateCheckpoint>, max: usize) -> Seq<StateCheckpoint>
    decreases cps.len(),
{
    if cps.len() == 0 {
        Seq::empty()
    } else {
        let prev = capped_checkpoints(cps.drop_last(), max);
        if channel_count(cps, cps.last().channel@) <= max { prev.push(cps.last()) } else { prev }
    }
}

/// The health of the recovery system: degraded without checkpoints or
/// when none is at most an hour old.
pub open spec fn recovery_health(cps: Seq<StateCheckpoint>, now_secs: u64) -> RecoveryState {
    if exists|i: int| 0 <= i < cps.len() && checkpoint_age(now_secs, (#[trigger] cps[i]).timestamp) <= 3600 {
        RecoveryState::Healthy
    } else {
        RecoveryState::Degraded
    }
}

proof fn lemma_channel_count_bounded(cps: Seq<StateCheckpoint>, channel: Seq<char>)
    ensures
        channel_count(cps, channel) <= cps.len(),
    decreases cps.len(),
{
    if cps.len() > 0 {
        lemma_channel_count_bounded(cps.drop_last(), channel);
    }
}

impl StateRecovery {
    /// The usable checkpoint of `channel` made last.
    pub fn find_latest_valid_checkpoint(&self, channel: &str, now_secs: u64) -> (r: Option<&StateCheckpoint>)
        ensures
            match (r, latest_usable(self.checkpoints@, channel@, now_secs, self.recovery_options.max_checkpoint_age_seconds)) {
                (None, None) => true,
                (Some(c), Some(i)) => 0 <= i < self.checkpoints@.len() && *c == self.checkpoints@[i],
                _ => false,
            },
    {
        let max_age = self.recovery_options.max_checkpoint_age_seconds;
        let ghost cps = self.checkpoints@;
        let wanted = crate::text::owned(channel);
        let mut best: Option<usize> = None;
        let mut i: usize = 0;
        assert(cps.take(0) =~= Seq::<StateCheckpoint>::empty());
        while i < self.checkpoints.len()
            invariant
                0 <= i <= cps.len(),
                cps == self.checkpoints@,
                wanted@ == channel@,
                max_age == self.recovery_options.max_checkpoint_age_seconds,
                match best {
                    Some(b) => latest_usable(cps.take(i as int), channel@, now_secs, max_age) == Some(b as int) && b < i,
                    None => latest_usable(cps.take(i as int), channel@, now_secs, max_age) is None,
                },
            decreases cps.len() - i,
        {
            proof {
                assert(cps.take(i + 1).drop_last() =~= cps.take(i as int));
                assert(cps.take(i + 1)[i as int] == cps[i as int]);
                if let Some(b) = best {
                    assert(cps.take(i + 1)[b as int] == cps[b as int]);
                }
            }
            let cp = &self.checkpoints[i];
            if cp.channel == wanted && is_young(now_secs, cp.timestamp, max_age) {
                let better = match best {
                    Some(b) => cp.timestamp >= self.checkpoints[b].timestamp,
                    None => true,
                };
                if better {
                    best = Some(i);
                }
            }
            i = i + 1;
        }
        assert(cps.take(cps.len() as int) =~= cps);
        match best {
            Some(b) => Some(&self.checkpoints[b]),
            None => None,
        }
    }

    /// The usable checkpoint of `channel` of best quality.
    pub fn find_best_quality_checkpoint(&self, channel: &str, now_secs: u64) -> (r: Option<&StateCheckpoint>)
        ensures
            match (r, best_usable(self.checkpoints@, channel@, now_secs, self.recovery_options.max_checkpoint_age_seconds)) {
                (None, None) => true,
                (Some(c), Some(i)) => 0 <= i < self.checkpoints@.len() && *c == self.checkpoints@[i],
                _ => false,
            },
    {
        let max_age = self.recovery_options.max_checkpoint_age_seconds;
        let ghost cps = self.checkpoints@;
        let wanted = crate::text::owned(channel);
        let mut best: Option<usize> = None;
        let mut i: usize = 0;
        assert(cps.take(0) =~= Seq::<StateCheckpoint>::empty());
        while i < self.checkpoints.len()
            invariant
                0 <= i <= cps.len(),
                cps == self.checkpoints@,
                wanted@ == channel@,
                max_age == self.recovery_options.max_checkpoint_age_seconds,
                match best {
                    Some(b) => best_usable(cps.take(i as int), channel@, now_secs, max_age) == Some(b as int) && b < i,
                    None => best_usable(cps.take(i as int), channel@, now_secs, max_age) is None,
                },
            decreases cps.len() - i,
        {
            proof {
                assert(cps.take(i + 1).drop_last() =~= cps.take(i as int));
                assert(cps.take(i + 1)[i as int] == cps[i as int]);
                if let Some(b) = best {
                    assert(cps.take(i + 1)[b as int] == cps[b as int]);
                }
            }
            let cp = &self.checkpoints[i];
            if cp.channel == wanted && is_young(now_secs, cp.timestamp, max_age) {
                let better = match best {
                    Some(b) => cp.metadata.quality_score >= self.checkpoints[b].metadata.quality_score,
                    None => true,
                };
                if better {
                    best = Some(i);
                }
            }
            i = i + 1;
        }
        assert(cps.take(cps.len() as int) =~= cps);
        match best {
            Some(b) => Some(&self.checkpoints[b]),
            None => None,
        }
    }

    /// The quality of a snapshot at `now_ms`.
    pub fn calculate_checkpoint_quality(&self, snapshot: &StateSnapshot, now_ms: i64) -> (q: u8)
        ensures
            q == checkpoint_quality(*snapshot, now_ms),
    {
        let age = (now_ms as i128) - (snapshot.timestamp as i128);
        let hours: u128 = if age >= 0 { (age as u128) / 3600000 } else { 0 };
        let mut score: u8 = if hours > 24 { 80 } else if hours > 12 { 90 } else { 100 };
        if !snapshot.message_state.is_empty() {
            score = score + 10;
        }
        if !snapshot.presence_state.is_empty() {
            score = score + 5;
        }
        if snapshot.metadata.messages_processed > 100 {
            score = score + 5;
        }
        score
    }

    /// The integrity of a recovered state.
    pub fn validate_recovered_state(&self, state: &StringMap<JsonValue>) -> (score: u8)
        ensures
            score == integrity_of(*state),
    {
        let n = state.len();
        let ghost pairs = state.pairs();
        let mut nulls: u128 = 0;
        let mut i: usize = 0;
        assert(pairs.take(0) =~= Seq::<(String, JsonValue)>::empty());
        while i < n
            invariant
                n == pairs.len(),
                pairs == state.pairs(),
                0 <= i <= n,
                nulls == null_count(pairs.take(i as int)),
                nulls <= i,
            decreases n - i,
        {
            proof {
                assert(pairs.take(i + 1).drop_last() =~= pairs.take(i as int));
                assert(pairs.take(i + 1).last() == pairs[i as int]);
            }
            if state.value_at(i).is_null() {
                nulls = nulls + 1;
            }
            i = i + 1;
        }
        assert(pairs.take(n as int) =~= pairs);
        if n == 0 {
            return 0;
        }
        #[verifier::truncate]
        let penalty = ((nulls * 5) % 256) as u8;
        let score: u8 = 100;
        score.saturating_sub(penalty)
    }

    /// The health of the recovery system at `now_secs`.
    pub fn get_recovery_state(&self, now_secs: u64) -> (s: RecoveryState)
        ensures
            s == recovery_health(self.checkpoints@, now_secs),
    {
        let ghost cps = self.checkpoints@;
        let mut i: usize = 0;
        while i < self.checkpoints.len()
            invariant
                0 <= i <= cps.len(),
                cps == self.checkpoints@,
                forall|j: int| 0 <= j < i ==> checkpoint_age(now_secs, (#[trigger] cps[j]).timestamp) > 3600,
            decreases cps.len() - i,
        {
            if is_young(now_secs, self.checkpoints[i].timestamp, 3600) {
                assert(checkpoint_age(now_secs, cps[i as int].timestamp) <= 3600);
                return RecoveryState::Healthy;
            }
            i = i + 1;
        }
        RecoveryState::Degraded
    }

    /// Drops the checkpoints that are too old, then keeps at most the
    /// allowed number per channel, the first of each.
    pub fn cleanup_old_checkpoints(&mut self, now_secs: u64)
        ensures
            final(self).checkpoints@ == capped_checkpoints(
                young_checkpoints(old(self).checkpoints@, now_secs, old(self).recovery_options.max_checkpoint_age_seconds),
                old(self).recovery_options.max_checkpoints,
            ),
            final(self).recovery_options == old(self).recovery_options,
    {
        let max_age = self.recovery_options.max_checkpoint_age_seconds;
        let max_n = self.recovery_options.max_checkpoints;
        let mut rest: Vec<StateCheckpoint> = Vec::new();
        std::mem::swap(&mut rest, &mut self.checkpoints);
        let ghost all = rest@;
        let mut young: Vec<StateCheckpoint> = Vec::new();
        let ghost mut i: int = 0;
        assert(all.take(0) =~= Seq::<StateCheckpoint>::empty());
        while rest.len() > 0
            invariant
                0 <= i <= all.len(),
                rest@ == all.subrange(i, all.len() as int),
                young@ == young_checkpoints(all.take(i), now_secs, max_age),
                self.recovery_options == old(self).recovery_options,
                max_age == self.recovery_options.max_checkpoint_age_seconds,
            decreases rest@.len(),
        {
            let cp = rest.remove(0);
            proof {
                assert(cp == all[i]);
                assert(all.take(i + 1).drop_last() =~= all.take(i));
                assert(all.take(i + 1).last() == all[i]);
                assert(rest@ =~= all.subrange(i + 1, all.len() as int));
                i = i + 1;
            }
            if is_young(now_secs, cp.timestamp, max_age) {
                young.push(cp);
            }
        }
        assert(all.take(all.len() as int) =~= all);
        let ghost ys = young@;
        let young_len = young.len();
        assert(ys.len() == young_len);
        let mut counts: StringMap<usize> = StringMap::new();
        let mut kept: Vec<StateCheckpoint> = Vec::new();
        let ghost mut j: int = 0;
        assert(ys.take(0) =~= Seq::<StateCheckpoint>::empty());
        while young.len() > 0
            invariant
                0 <= j <= ys.len(),
                young@ == ys.subrange(j, ys.len() as int),
                kept@ == capped_checkpoints(ys.take(j), max_n),
                forall|c: Seq<char>| #[trigger] counts@.contains_key(c) ==> counts@[c] == channel_count(ys.take(j), c),
                forall|c: Seq<char>| !counts@.contains_key(c) ==> channel_count(ys.take(j), c) == 0,
                ys.len() <= usize::MAX,
                self.recovery_options == old(self).recovery_options,
                max_n == self.recovery_options.max_checkpoints,
            decreases young@.len(),
        {
            let cp = young.remove(0);
            let ghost c = cp.channel@;
            proof {
                assert(cp == ys[j]);
                assert(ys.take(j + 1).drop_last() =~= ys.take(j));
                assert(ys.take(j + 1).last() == ys[j]);
                assert(young@ =~= ys.subrange(j + 1, ys.len() as int));
                lemma_channel_count_bounded(ys.take(j), c);
            }
            let seen: usize = match counts.get(cp.channel.as_str()) {
                Some(v) => *v,
                None => 0,
            };
            let count = seen + 1;
            counts.insert(cp.channel.clone(), count);
            proof {
                assert forall|d: Seq<char>| #[trigger] counts@.contains_key(d) implies counts@[d] == channel_count(ys.take(j + 1), d) by {
                    if d != c {
                    }
                }
                j = j + 1;
            }
            if count <= max_n {
                kept.push(cp);
            }
        }
        assert(ys.take(ys.len() as int) =~= ys);
        self.checkpoints = kept;
    }
}

/// The id of a checkpoint of `channel` made at `millis`.
pub open spec fn checkpoint_id(channel: Seq<char>, millis: u128) -> Seq<char> {
    "checkpoint_"@ + channel + "_"@ + decimal(millis as nat)
}

impl StateRecovery {
    /// Records a checkpoint of `channel` holding `snapshot`, then cleans
    /// up; gives the checkpoint's id. The caller hands in the snapshot's
    /// hash and size in bytes, the time of the id in milliseconds, the
    /// present time in milliseconds and in seconds, and how long making
    /// the snapshot took.
    pub fn add_checkpoint(
        &mut self,
        channel: &str,
        reason: CheckpointReason,
        snapshot: StateSnapshot,
        integrity_hash: String,
        size_bytes: usize,
        id_millis: u128,
        now_ms: i64,
        now_secs: u64,
        creation_time_ms: u64,
    ) -> (id: String)
        ensures
            id@ == checkpoint_id(channel@, id_millis),
            exists|cp: StateCheckpoint|
                #![trigger old(self).checkpoints@.push(cp)]
                {
                    &&& cp.id@ == id@
                    &&& cp.channel@ == channel@
                    &&& cp.timestamp == snapshot.timestamp
                    &&& cp.snapshot == snapshot
                    &&& cp.integrity_hash == integrity_hash
                    &&& cp.metadata.reason == reason
                    &&& cp.metadata.quality_score == checkpoint_quality(snapshot, now_ms)
                    &&& cp.metadata.size_bytes == size_bytes
                    &&& cp.metadata.creation_time_ms == creation_time_ms
                    &&& cp.metadata.tags@.len() == 1
                    &&& cp.metadata.tags@[0]@ == "auto"@
                    &&& final(self).checkpoints@ == capped_checkpoints(
                        young_checkpoints(
                            old(self).checkpoints@.push(cp),
                            now_secs,
                            old(self).recovery_options.max_checkpoint_age_seconds,
                        ),
                        old(self).recovery_options.max_checkpoints,
                    )
                },
            final(self).recovery_options == old(self).recovery_options,
    {
        let mut id = owned("checkpoint_");
        append(&mut id, channel);
        append(&mut id, "_");
        let millis = u128_to_string(id_millis);
        append(&mut id, millis.as_str());
        let quality = self.calculate_checkpoint_quality(&snapshot, now_ms);
        let mut tags: Vec<String> = Vec::new();
        tags.push(owned("auto"));
        let timestamp = snapshot.timestamp;
        let cp = StateCheckpoint {
            id: id.clone(),
            channel: owned(channel),
            timestamp,
            snapshot,
            integrity_hash,
            metadata: CheckpointMetadata { reason, quality_score: quality, size_bytes, creation_time_ms, tags },
        };
        let ghost pushed = cp;
        self.checkpoints.push(cp);
        assert(self.checkpoints@ == old(self).checkpoints@.push(pushed));
        self.cleanup_old_checkpoints(now_secs);
        id
    }
}

/// The outcome of a recovery.
#[derive(Debug)]
pub struct RecoveryResult {
    pub success: bool,
    pub strategy_used: RecoveryStrategy,
    pub recovered_state: StringMap<JsonValue>,
    pub presence_state: StringMap<PresenceMessage>,
    pub metrics: RecoveryMetrics,
    pub warnings: Vec<String>,
    /// The id of the checkpoint used, if any.
    pub checkpoint_used: Option<String>,
}

/// What a recovery needs, by strategy: a checkpoint, a replay of the
/// channel, or both.
#[derive(Debug, Clone, Copy, PartialEq, Eq, Structural)]
pub enum RecoveryPlan {
    /// Recover from the checkpoint at this position.
    UseCheckpoint(usize),
    /// No checkpoint served: replay the channel, with a warning when the
    /// latest checkpoint was wanted.
    ReplayFallback { warn: bool },
    /// Replay the channel from a time.
    ReplayFromTimestamp,
    /// Merge the checkpoint at this position, if any, with a replay.
    Merge(Option<usize>),
    /// Recover only from a good checkpoint: the one of best quality at
    /// this position, if any.
    Conservative(Option<usize>),
}

/// The plan of recovery of `channel` at `now_secs` under a strategy.
pub open spec fn recovery_plan(r: StateRecovery, channel: Seq<char>, now_secs: u64) -> RecoveryPlan {
    let cps = r.checkpoints@;
    let max_age = r.recovery_options.max_checkpoint_age_seconds;
    match r.recovery_options.recovery_strategy {
        RecoveryStrategy::LatestCheckpoint => match latest_usable(cps, channel, now_secs, max_age) {
            Some(i) => RecoveryPlan::UseCheckpoint(i as usize),
            None => RecoveryPlan::ReplayFallback { warn: true },
        },
        RecoveryStrategy::LastKnownGood => match best_usable(cps, channel, now_secs, max_age) {
            Some(i) => RecoveryPlan::UseCheckpoint(i as usize),
            None => RecoveryPlan::ReplayFallback { warn: false },
        },
        RecoveryStrategy::ReplayFromTimestamp(_) => RecoveryPlan::ReplayFromTimestamp,
        RecoveryStrategy::MultiSourceMerge => RecoveryPlan::Merge(
            match latest_usable(cps, channel, now_secs, max_age) {
                Some(i) => Some(i as usize),
                None => None,
            },
        ),
        RecoveryStrategy::Conservative => RecoveryPlan::Conservative(
            match best_usable(cps, channel, now_secs, max_age) {
                Some(i) => Some(i as usize),
                None => None,
            },
        ),
    }
}

/// Metrics that nothing has measured yet.
pub open spec fn zero_metrics() -> RecoveryMetrics {
    RecoveryMetrics { recovery_time_ms: 0, messages_replayed: 0, integrity_score: 0, estimated_loss_messages: 0, confidence_score: 0 }
}

/// The texts of strings.
pub open spec fn texts(v: Seq<String>) -> Seq<Seq<char>> {
    v.map_values(|s: String| s@)
}

/// The result carries the checkpoint's state, presence and id, with the
/// checkpoint's quality as confidence.
pub open spec fn holds_checkpoint(r: RecoveryResult, cp: StateCheckpoint) -> bool {
    &&& state_models(r.recovered_state@) == state_models(cp.snapshot.message_state@)
    &&& presence_views(r.presence_state@) == presence_views(cp.snapshot.presence_state@)
    &&& opt_text(r.checkpoint_used) == Some(cp.id@)
    &&& r.metrics.confidence_score == cp.metadata.quality_score
}

/// The result carries the replay's state and presence and the number of
/// messages replayed.
pub open spec fn holds_replay(r: RecoveryResult, replay: ReplayResult) -> bool {
    &&& state_models(r.recovered_state@) == state_models(replay.final_state@)
    &&& presence_views(r.presence_state@) == presence_views(replay.presence_state@)
    &&& r.metrics.messages_replayed == replay.messages_processed
    &&& r.checkpoint_used is None
}

/// The result is measured: the time it took and, when asked for, the
/// integrity of the recovered state.
pub open spec fn measured(r: RecoveryResult, time_ms: u64, check_integrity: bool) -> bool {
    &&& r.metrics.recovery_time_ms == time_ms
    &&& r.metrics.integrity_score == if check_integrity { integrity_of(r.recovered_state) } else { 0 }
    &&& r.metrics.estimated_loss_messages == 0
}

/// The confidence of a merge: the average of the checkpoint's quality,
/// if any, and 85 for a successful replay or 50 for another, if any.
pub open spec fn merge_confidence(quality: Option<u8>, replay_success: Option<bool>) -> nat {
    let scores: Seq<nat> = (match quality {
        Some(q) => seq![q as nat],
        None => Seq::empty(),
    }) + (match replay_success {
        Some(true) => seq![85nat],
        Some(false) => seq![50nat],
        None => Seq::empty(),
    });
    if scores.len() == 0 {
        0
    } else if scores.len() == 1 {
        scores[0]
    } else {
        (scores[0] + scores[1]) / 2
    }
}

impl StateRecovery {
    /// What recovering `channel` at `now_secs` needs under the configured
    /// strategy.
    pub fn plan_recovery(&self, channel: &str, now_secs: u64) -> (p: RecoveryPlan)
        ensures
            p == recovery_plan(*self, channel@, now_secs),
    {
        proof {
            lemma_usable_in_range(self.checkpoints@, channel@, now_secs, self.recovery_options.max_checkpoint_age_seconds);
        }
        match self.recovery_options.recovery_strategy {
            RecoveryStrategy::LatestCheckpoint => match self.latest_position(channel, now_secs) {
                Some(i) => RecoveryPlan::UseCheckpoint(i),
                None => RecoveryPlan::ReplayFallback { warn: true },
            },
            RecoveryStrategy::LastKnownGood => match self.best_position(channel, now_secs) {
                Some(i) => RecoveryPlan::UseCheckpoint(i),
                None => RecoveryPlan::ReplayFallback { warn: false },
            },
            RecoveryStrategy::ReplayFromTimestamp(_) => RecoveryPlan::ReplayFromTimestamp,
            RecoveryStrategy::MultiSourceMerge => RecoveryPlan::Merge(self.latest_position(channel, now_secs)),
            RecoveryStrategy::Conservative => RecoveryPlan::Conservative(self.best_position(channel, now_secs)),
        }
    }

    /// The position of the usable checkpoint made last.
    fn latest_position(&self, channel: &str, now_secs: u64) -> (r: Option<usize>)
        ensures
            match (r, latest_usable(self.checkpoints@, channel@, now_secs, self.recovery_options.max_checkpoint_age_seconds)) {
                (None, None) => true,
                (Some(i), Some(j)) => i == j && i < self.checkpoints@.len(),
                _ => false,
            },
    {
        let max_age = self.recovery_options.max_checkpoint_age_seconds;
        let ghost cps = self.checkpoints@;
        let wanted = owned(channel);
        let mut best: Option<usize> = None;
        let mut i: usize = 0;
        assert(cps.take(0) =~= Seq::<StateCheckpoint>::empty());
        while i < self.checkpoints.len()
            invariant
                0 <= i <= cps.len(),
                cps == self.checkpoints@,
                wanted@ == channel@,
                max_age == self.recovery_options.max_checkpoint_age_seconds,
                match best {
                    Some(b) => latest_usable(cps.take(i as int), channel@, now_secs, max_age) == Some(b as int) && b < i,
                    None => latest_usable(cps.take(i as int), channel@, now_secs, max_age) is None,
                },
            decreases cps.len() - i,
        {
            proof {
                assert(cps.take(i + 1).drop_last() =~= cps.take(i as int));
                assert(cps.take(i + 1)[i as int] == cps[i as int]);
                if let Some(b) = best {
                    assert(cps.take(i + 1)[b as int] == cps[b as int]);
                }
            }
            let cp = &self.checkpoints[i];
            if cp.channel == wanted && is_young(now_secs, cp.timestamp, max_age) {
                let better = match best {
                    Some(b) => cp.timestamp >= self.checkpoints[b].timestamp,
                    None => true,
                };
                if better {
                    best = Some(i);
                }
            }
            i = i + 1;
        }
        assert(cps.take(cps.len() as int) =~= cps);
        best
    }

    /// The position of the usable checkpoint of best quality.
    fn best_position(&self, channel: &str, now_secs: u64) -> (r: Option<usize>)
        ensures
            match (r, best_usable(self.checkpoints@, channel@, now_secs, self.recovery_options.max_checkpoint_age_seconds)) {
                (None, None) => true,
                (Some(i), Some(j)) => i == j && i < self.checkpoints@.len(),
                _ => false,
            },
    {
        let max_age = self.recovery_options.max_checkpoint_age_seconds;
        let ghost cps = self.checkpoints@;
        let wanted = owned(channel);
        let mut best: Option<usize> = None;
        let mut i: usize = 0;
        assert(cps.take(0) =~= Seq::<StateCheckpoint>::empty());
        while i < self.checkpoints.len()
            invariant
                0 <= i <= cps.len(),
                cps == self.checkpoints@,
                wanted@ == channel@,
                max_age == self.recovery_options.max_checkpoint_age_seconds,
                match best {
                    Some(b) => best_usable(cps.take(i as int), channel@, now_secs, max_age) == Some(b as int) && b < i,
                    None => best_usable(cps.take(i as int), channel@, now_secs, max_age) is None,
                },
            decreases cps.len() - i,
        {
            proof {
                assert(cps.take(i + 1).drop_last() =~= cps.take(i as int));
                assert(cps.take(i + 1)[i as int] == cps[i as int]);
                if let Some(b) = best {
                    assert(cps.take(i + 1)[b as int] == cps[b as int]);
                }
            }
            let cp = &self.checkpoints[i];
            if cp.channel == wanted && is_young(now_secs, cp.timestamp, max_age) {
                let better = match best {
                    Some(b) => cp.metadata.quality_score >= self.checkpoints[b].metadata.quality_score,
                    None => true,
                };
                if better {
                    best = Some(i);
                }
            }
            i = i + 1;
        }
        assert(cps.take(cps.len() as int) =~= cps);
        best
    }

    /// A result from the checkpoint at `i`.
    fn result_from_checkpoint(&self, i: usize) -> (r: RecoveryResult)
        requires
            i < self.checkpoints@.len(),
        ensures
            holds_checkpoint(r, self.checkpoints@[i as int]),
            r.success,
            r.strategy_used == self.recovery_options.recovery_strategy,
            r.metrics == (RecoveryMetrics { confidence_score: self.checkpoints@[i as int].metadata.quality_score, ..zero_metrics() }),
            r.warnings@.len() == 0,
    {
        let cp = &self.checkpoints[i];
        RecoveryResult {
            success: true,
            strategy_used: self.recovery_options.recovery_strategy,
            recovered_state: copy_state(&cp.snapshot.message_state),
            presence_state: copy_presence(&cp.snapshot.presence_state),
            metrics: RecoveryMetrics {
                recovery_time_ms: 0,
                messages_replayed: 0,
                integrity_score: 0,
                estimated_loss_messages: 0,
                confidence_score: cp.metadata.quality_score,
            },
            warnings: Vec::new(),
            checkpoint_used: Some(cp.id.clone()),
        }
    }

    /// A result from a replay.
    fn result_from_replay(&self, replay: &ReplayResult, confidence: u8, warnings: Vec<String>) -> (r: RecoveryResult)
        ensures
            holds_replay(r, *replay),
            r.success == replay.success,
            r.strategy_used == self.recovery_options.recovery_strategy,
            r.metrics == (RecoveryMetrics { messages_replayed: replay.messages_processed, confidence_score: confidence, ..zero_metrics() }),
            r.warnings@ == warnings@,
    {
        RecoveryResult {
            success: replay.success,
            strategy_used: self.recovery_options.recovery_strategy,
            recovered_state: copy_state(&replay.final_state),
            presence_state: copy_presence(&replay.presence_state),
            metrics: RecoveryMetrics {
                recovery_time_ms: 0,
                messages_replayed: replay.messages_processed,
                integrity_score: 0,
                estimated_loss_messages: 0,
                confidence_score: confidence,
            },
            warnings,
            checkpoint_used: None,
        }
    }

    /// Records the time a recovery took and, when asked for, the integrity
    /// of what it recovered.
    fn measure(&self, r: &mut RecoveryResult, time_ms: u64)
        ensures
            measured(*final(r), time_ms, self.recovery_options.validation.check_integrity),
            final(r).success == old(r).success,
            final(r).strategy_used == old(r).strategy_used,
            final(r).recovered_state == old(r).recovered_state,
            final(r).presence_state == old(r).presence_state,
            final(r).metrics.messages_replayed == old(r).metrics.messages_replayed,
            final(r).metrics.confidence_score == old(r).metrics.confidence_score,
            final(r).warnings == old(r).warnings,
            final(r).checkpoint_used == old(r).checkpoint_used,
    {
        r.metrics.recovery_time_ms = time_ms;
        r.metrics.estimated_loss_messages = 0;
        r.metrics.integrity_score = if self.recovery_options.validation.check_integrity {
            self.validate_recovered_state(&r.recovered_state)
        } else {
            0
        };
    }
}

/// The state a merge recovers: the checkpoint's, if any, with the
/// replay's, if any, taking precedence.
pub open spec fn merged_state(checkpoint: Option<StateCheckpoint>, replay: Option<ReplayResult>) -> Map<Seq<char>, JsonModel> {
    let base = match checkpoint {
        Some(cp) => state_models(cp.snapshot.message_state@),
        None => Map::empty(),
    };
    match replay {
        Some(r) => base.union_prefer_right(state_models(r.final_state@)),
        None => base,
    }
}

/// The checkpoint at a position, if any.
pub open spec fn checkpoint_at(cps: Seq<StateCheckpoint>, i: Option<usize>) -> Option<StateCheckpoint> {
    match i {
        Some(i) => Some(cps[i as int]),
        None => None,
    }
}

/// The replay, when it succeeded.
pub open spec fn replay_ok(replay: Option<AblyResult<ReplayResult>>) -> Option<ReplayResult> {
    match replay {
        Some(Ok(r)) => Some(r),
        _ => None,
    }
}

/// What the finish of a recovery gives, by plan and replay.
pub open spec fn recovery_finished(
    rec: StateRecovery,
    plan: RecoveryPlan,
    replay: Option<AblyResult<ReplayResult>>,
    time_ms: u64,
    r: AblyResult<RecoveryResult>,
) -> bool {
    let cps = rec.checkpoints@;
    let check = rec.recovery_options.validation.check_integrity;
    let strategy = rec.recovery_options.recovery_strategy;
    match plan {
        RecoveryPlan::UseCheckpoint(i) => match r {
            Ok(x) => {
                &&& holds_checkpoint(x, cps[i as int])
                &&& x.success
                &&& x.strategy_used == strategy
                &&& measured(x, time_ms, check)
                &&& x.metrics.messages_replayed == 0
                &&& x.warnings@.len() == 0
            },
            Err(_) => false,
        },
        RecoveryPlan::ReplayFallback { warn } => match replay {
            Some(Ok(rr)) => match r {
                Ok(x) => {
                    &&& holds_replay(x, rr)
                    &&& x.success == rr.success
                    &&& x.strategy_used == strategy
                    &&& x.metrics == (RecoveryMetrics {
                        messages_replayed: rr.messages_processed,
                        confidence_score: if rr.success { 90 } else { 0 },
                        ..zero_metrics()
                    })
                    &&& texts(x.warnings@) == if warn {
                        seq!["No valid checkpoint found, falling back to replay"@]
                    } else {
                        Seq::<Seq<char>>::empty()
                    }
                },
                Err(_) => false,
            },
            Some(Err(e)) => r == Err::<RecoveryResult, AblyError>(e),
            None => false,
        },
        RecoveryPlan::ReplayFromTimestamp => match replay {
            Some(Ok(rr)) => match r {
                Ok(x) => {
                    &&& holds_replay(x, rr)
                    &&& x.success == rr.success
                    &&& x.strategy_used == strategy
                    &&& measured(x, time_ms, check)
                    &&& x.metrics.confidence_score == 0
                    &&& x.warnings@.len() == 0
                },
                Err(_) => false,
            },
            Some(Err(e)) => r == Err::<RecoveryResult, AblyError>(e),
            None => false,
        },
        RecoveryPlan::Merge(i) => match r {
            Ok(x) => {
                &&& state_models(x.recovered_state@) == merged_state(checkpoint_at(cps, i), replay_ok(replay))
                &&& x.presence_state@ == Map::<Seq<char>, PresenceMessage>::empty()
                &&& x.success
                &&& x.strategy_used == strategy
                &&& opt_text(x.checkpoint_used) == match checkpoint_at(cps, i) {
                    Some(cp) => Some(cp.id@),
                    None => None,
                }
                &&& x.metrics == (RecoveryMetrics {
                    messages_replayed: match replay_ok(replay) {
                        Some(rr) => rr.messages_processed,
                        None => 0,
                    },
                    confidence_score: merge_confidence(
                        match checkpoint_at(cps, i) {
                            Some(cp) => Some(cp.metadata.quality_score),
                            None => None,
                        },
                        match replay_ok(replay) {
                            Some(rr) => Some(rr.success),
                            None => None,
                        },
                    ) as u8,
                    ..zero_metrics()
                })
                &&& x.warnings@.len() == 0
            },
            Err(_) => false,
        },
        RecoveryPlan::Conservative(i) => match r {
            Ok(x) => {
                &&& x.strategy_used == strategy
                &&& match checkpoint_at(cps, i) {
                    Some(cp) => if cp.metadata.quality_score >= 80 {
                        &&& holds_checkpoint(x, cp)
                        &&& x.success
                        &&& x.metrics == (RecoveryMetrics { confidence_score: cp.metadata.quality_score, ..zero_metrics() })
                        &&& x.warnings@.len() == 0
                    } else {
                        &&& !x.success
                        &&& x.recovered_state@ == Map::<Seq<char>, JsonValue>::empty()
                        &&& x.presence_state@ == Map::<Seq<char>, PresenceMessage>::empty()
                        &&& x.checkpoint_used is None
                        &&& x.metrics == zero_metrics()
                        &&& texts(x.warnings@) == seq!["No high-quality checkpoint available for conservative recovery"@]
                    },
                    None => {
                        &&& !x.success
                        &&& x.recovered_state@ == Map::<Seq<char>, JsonValue>::empty()
                        &&& x.presence_state@ == Map::<Seq<char>, PresenceMessage>::empty()
                        &&& x.checkpoint_used is None
                        &&& x.metrics == zero_metrics()
                        &&& texts(x.warnings@) == seq!["No checkpoints available for conservative recovery"@]
                    },
                }
            },
            Err(_) => false,
        },
    }
}

/// The plan fits the checkpoints and is given the replay it needs; a
/// merge's scores fit a `u8` sum.
pub open spec fn finish_allowed(rec: StateRecovery, plan: RecoveryPlan, replay: Option<AblyResult<ReplayResult>>) -> bool {
    let cps = rec.checkpoints@;
    match plan {
        RecoveryPlan::UseCheckpoint(i) => i < cps.len(),
        RecoveryPlan::ReplayFallback { .. } => replay is Some,
        RecoveryPlan::ReplayFromTimestamp => replay is Some,
        RecoveryPlan::Merge(i) => match i {
            Some(i) => i < cps.len() && match replay_ok(replay) {
                Some(rr) => cps[i as int].metadata.quality_score + (if rr.success { 85int } else { 50int }) <= 255,
                None => true,
            },
            None => true,
        },
        RecoveryPlan::Conservative(i) => match i {
            Some(i) => i < cps.len(),
            None => true,
        },
    }
}

/// A result with nothing recovered and one warning.
fn failed_result(strategy: RecoveryStrategy, warning: &str) -> (r: RecoveryResult)
    ensures
        !r.success,
        r.strategy_used == strategy,
        r.recovered_state@ == Map::<Seq<char>, JsonValue>::empty(),
        r.presence_state@ == Map::<Seq<char>, PresenceMessage>::empty(),
        r.checkpoint_used is None,
        r.metrics == zero_metrics(),
        texts(r.warnings@) == seq![warning@],
{
    let mut warnings: Vec<String> = Vec::new();
    warnings.push(owned(warning));
    assert(texts(warnings@) =~= seq![warning@]);
    RecoveryResult {
        success: false,
        strategy_used: strategy,
        recovered_state: StringMap::new(),
        presence_state: StringMap::new(),
        metrics: RecoveryMetrics {
            recovery_time_ms: 0,
            messages_replayed: 0,
            integrity_score: 0,
            estimated_loss_messages: 0,
            confidence_score: 0,
        },
        warnings,
        checkpoint_used: None,
    }
}

impl StateRecovery {
    /// Finishes a recovery by its plan, with the replay of the channel the
    /// plan asked for (`None` when it asked for none) and the time taken.
    pub fn finish_recovery(&self, plan: RecoveryPlan, replay: Option<AblyResult<ReplayResult>>, time_ms: u64) -> (r: AblyResult<RecoveryResult>)
        requires
            finish_allowed(*self, plan, replay),
        ensures
            recovery_finished(*self, plan, replay, time_ms, r),
    {
        let strategy = self.recovery_options.recovery_strategy;
        match plan {
            RecoveryPlan::UseCheckpoint(i) => {
                let mut x = self.result_from_checkpoint(i);
                self.measure(&mut x, time_ms);
                Ok(x)
            },
            RecoveryPlan::ReplayFallback { warn } => match replay.unwrap() {
                Ok(rr) => {
                    let mut warnings: Vec<String> = Vec::new();
                    if warn {
                        warnings.push(owned("No valid checkpoint found, falling back to replay"));
                    }
                    assert(texts(warnings@) =~= if warn {
                        seq!["No valid checkpoint found, falling back to replay"@]
                    } else {
                        Seq::<Seq<char>>::empty()
                    });
                    let confidence: u8 = if rr.success { 90 } else { 0 };
                    Ok(self.result_from_replay(&rr, confidence, warnings))
                },
                Err(e) => Err(e),
            },
            RecoveryPlan::ReplayFromTimestamp => match replay.unwrap() {
                Ok(rr) => {
                    let mut x = self.result_from_replay(&rr, 0, Vec::new());
                    self.measure(&mut x, time_ms);
                    Ok(x)
                },
                Err(e) => Err(e),
            },
            RecoveryPlan::Merge(i) => {
                let mut merged: StringMap<JsonValue> = match i {
                    Some(i) => copy_state(&self.checkpoints[i].snapshot.message_state),
                    None => StringMap::new(),
                };
                assert(state_models(merged@) =~= match checkpoint_at(self.checkpoints@, i) {
                    Some(cp) => state_models(cp.snapshot.message_state@),
                    None => Map::<Seq<char>, JsonModel>::empty(),
                });
                let checkpoint_used = match i {
                    Some(i) => Some(self.checkpoints[i].id.clone()),
                    None => None,
                };
                let mut replayed: usize = 0;
                let mut replay_score: Option<u8> = None;
                match &replay {
                    Some(Ok(rr)) => {
                        merge_state_into(&mut merged, &rr.final_state);
                        replayed = rr.messages_processed;
                        replay_score = Some(if rr.success { 85 } else { 50 });
                    },
                    _ => {},
                }
                let confidence: u8 = match (i, replay_score) {
                    (Some(i), Some(s)) => (self.checkpoints[i].metadata.quality_score + s) / 2,
                    (Some(i), None) => self.checkpoints[i].metadata.quality_score,
                    (None, Some(s)) => s,
                    (None, None) => 0,
                };
                Ok(
                    RecoveryResult {
                        success: true,
                        strategy_used: strategy,
                        recovered_state: merged,
                        presence_state: StringMap::new(),
                        metrics: RecoveryMetrics {
                            recovery_time_ms: 0,
                            messages_replayed: replayed,
                            integrity_score: 0,
                            estimated_loss_messages: 0,
                            confidence_score: confidence,
                        },
                        warnings: Vec::new(),
                        checkpoint_used,
                    },
                )
            },
            RecoveryPlan::Conservative(i) => match i {
                Some(i) => {
                    if self.checkpoints[i].metadata.quality_score >= 80 {
                        Ok(self.result_from_checkpoint(i))
                    } else {
                        Ok(failed_result(strategy, "No high-quality checkpoint available for conservative recovery"))
                    }
                },
                None => Ok(failed_result(strategy, "No checkpoints available for conservative recovery")),
            },
        }
    }
}

/// What is known of the checkpoints: how many, the sum of their
/// qualities, the age of the one made last, and the system's health.
#[derive(Debug, Clone, Copy, PartialEq, Eq, Structural)]
pub struct RecoverySummary {
    pub total_checkpoints: usize,
    pub quality_sum: u128,
    pub latest_checkpoint_age_seconds: Option<i128>,
    pub recovery_state: RecoveryState,
}

/// The position of the checkpoint made last, the last of them on a tie.
pub open spec fn latest_made(cps: Seq<StateCheckpoint>) -> Option<int>
    decreases cps.len(),
{
    if cps.len() == 0 {
        None
    } else {
        let prev = latest_made(cps.drop_last());
        let i = cps.len() - 1;
        match prev {
            Some(j) => if cps[i].timestamp >= cps[j].timestamp { Some(i) } else { prev },
            None => Some(i),
        }
    }
}

/// The sum of the checkpoints' qualities.
pub open spec fn quality_sum(cps: Seq<StateCheckpoint>) -> nat
    decreases cps.len(),
{
    if cps.len() == 0 {
        0
    } else {
        quality_sum(cps.drop_last()) + cps.last().metadata.quality_score as nat
    }
}

proof fn lemma_quality_sum_bounded(cps: Seq<StateCheckpoint>)
    ensures
        quality_sum(cps) <= cps.len() * 255,
    decreases cps.len(),
{
    if cps.len() > 0 {
        lemma_quality_sum_bounded(cps.drop_last());
    }
}

impl StateRecovery {
    /// What is known of the checkpoints at `now_secs`.
    pub fn recovery_summary(&self, now_secs: u64) -> (r: RecoverySummary)
        ensures
            r.total_checkpoints == self.checkpoints@.len(),
            r.quality_sum == quality_sum(self.checkpoints@),
            r.latest_checkpoint_age_seconds == match latest_made(self.checkpoints@) {
                Some(i) => Some(checkpoint_age(now_secs, self.checkpoints@[i].timestamp) as i128),
                None => None,
            },
            r.recovery_state == recovery_health(self.checkpoints@, now_secs),
    {
        let ghost cps = self.checkpoints@;
        let mut sum: u128 = 0;
        let mut latest: Option<usize> = None;
        let mut i: usize = 0;
        assert(cps.take(0) =~= Seq::<StateCheckpoint>::empty());
        while i < self.checkpoints.len()
            invariant
                0 <= i <= cps.len(),
                cps == self.checkpoints@,
                sum == quality_sum(cps.take(i as int)),
                match latest {
                    Some(b) => latest_made(cps.take(i as int)) == Some(b as int) && b < i,
                    None => latest_made(cps.take(i as int)) is None,
                },
            decreases cps.len() - i,
        {
            proof {
                assert(cps.take(i + 1).drop_last() =~= cps.take(i as int));
                assert(cps.take(i + 1)[i as int] == cps[i as int]);
                if let Some(b) = latest {
                    assert(cps.take(i + 1)[b as int] == cps[b as int]);
                }
                lemma_quality_sum_bounded(cps.take(i + 1));
                assert(cps.take(i + 1).len() * 255 <= u128::MAX) by (nonlinear_arith)
                    requires
                        cps.take(i + 1).len() <= usize::MAX,
                        usize::MAX <= u64::MAX,
                ;
            }
            sum = sum + self.checkpoints[i].metadata.quality_score as u128;
            let better = match latest {
                Some(b) => self.checkpoints[i].timestamp >= self.checkpoints[b].timestamp,
                None => true,
            };
            if better {
                latest = Some(i);
            }
            i = i + 1;
        }
        assert(cps.take(cps.len() as int) =~= cps);
        let age = match latest {
            Some(b) => {
                #[verifier::truncate]
                let now = now_secs as i64;
                Some((now as i128) - seconds(self.checkpoints[b].timestamp))
            },
            None => None,
        };
        RecoverySummary {
            total_checkpoints: self.checkpoints.len(),
            quality_sum: sum,
            latest_checkpoint_age_seconds: age,
            recovery_state: self.get_recovery_state(now_secs),
        }
    }
}

proof fn lemma_young_are_young(cps: Seq<StateCheckpoint>, now_secs: u64, max_age: u64)
    ensures
        forall|i: int| 0 <= i < young_checkpoints(cps, now_secs, max_age).len()
            ==> young_enough(now_secs, (#[trigger] young_checkpoints(cps, now_secs, max_age)[i]).timestamp, max_age),
    decreases cps.len(),
{
    if cps.len() > 0 {
        lemma_young_are_young(cps.drop_last(), now_secs, max_age);
        let prev = young_checkpoints(cps.drop_last(), now_secs, max_age);
        let next = young_checkpoints(cps, now_secs, max_age);
        assert forall|i: int| 0 <= i < next.len() implies young_enough(now_secs, (#[trigger] next[i]).timestamp, max_age) by {
            if i < prev.len() {
                assert(next[i] == prev[i]);
            }
        }
    }
}

proof fn lemma_capped_from(cps: Seq<StateCheckpoint>, max: usize)
    ensures
        forall|i: int| 0 <= i < capped_checkpoints(cps, max).len()
            ==> exists|j: int| 0 <= j < cps.len() && cps[j] == #[trigger] capped_checkpoints(cps, max)[i],
        forall|ch: Seq<char>| #[trigger] channel_count(capped_checkpoints(cps, max), ch) == if channel_count(cps, ch) <= max {
            channel_count(cps, ch)
        } else {
            max as nat
        },
    decreases cps.len(),
{
    if cps.len() > 0 {
        let t = cps.drop_last();
        lemma_capped_from(t, max);
        let prev = capped_checkpoints(t, max);
        let next = capped_checkpoints(cps, max);
        assert forall|i: int| 0 <= i < next.len() implies exists|j: int| 0 <= j < cps.len() && cps[j] == #[trigger] next[i] by {
            if i < prev.len() {
                assert(next[i] == prev[i]);
                let j = choose|j: int| 0 <= j < t.len() && t[j] == prev[i];
                assert(cps[j] == t[j]);
            } else {
                assert(next[i] == cps[cps.len() - 1]);
            }
        }
        assert forall|ch: Seq<char>| #[trigger] channel_count(next, ch) == if channel_count(cps, ch) <= max {
            channel_count(cps, ch)
        } else {
            max as nat
        } by {
            let last = cps.last();
            assert(cps.drop_last() == t);
            assert(channel_count(cps, ch) == channel_count(t, ch) + if last.channel@ == ch { 1nat } else { 0nat });
            if channel_count(cps, last.channel@) <= max {
                assert(next == prev.push(last));
                assert(next.drop_last() =~= prev);
                assert(next.last() == last);
                assert(channel_count(next, ch) == channel_count(prev, ch) + if last.channel@ == ch { 1nat } else { 0nat });
            } else {
                assert(next == prev);
            }
        }
    }
}

/// After a cleanup every checkpoint left is young enough, and no channel
/// keeps more checkpoints than allowed.
pub proof fn law_cleanup_keeps_young_and_bounded(cps: Seq<StateCheckpoint>, now_secs: u64, max_age: u64, max: usize)
    ensures
        ({
            let kept = capped_checkpoints(young_checkpoints(cps, now_secs, max_age), max);
            &&& forall|i: int| 0 <= i < kept.len() ==> young_enough(now_secs, (#[trigger] kept[i]).timestamp, max_age)
            &&& forall|ch: Seq<char>| #[trigger] channel_count(kept, ch) <= max
        }),
{
    let young = young_checkpoints(cps, now_secs, max_age);
    let kept = capped_checkpoints(young, max);
    lemma_young_are_young(cps, now_secs, max_age);
    lemma_capped_from(young, max);
    assert forall|i: int| 0 <= i < kept.len() implies young_enough(now_secs, (#[trigger] kept[i]).timestamp, max_age) by {
        let j = choose|j: int| 0 <= j < young.len() && young[j] == kept[i];
        assert(young_enough(now_secs, young[j].timestamp, max_age));
    }
}

} // verus!
