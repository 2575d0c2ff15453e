//! Replay of channel history: options, snapshots, serial tracking,
//! recovery states and the analysis of replayed messages and presence.

pub mod channel_replay;
pub mod history_replay;
pub mod presence_replay;
pub mod state_recovery;

pub use history_replay::{ChannelSerialTracker, ReplayPosition, ReplayState};
pub use state_recovery::{RecoveryOptions, RecoveryState};

use crate::protocol::json::{json_model, JsonModel, JsonValue};
use crate::protocol::messages::{Message, PresenceAction, PresenceMessage, PresenceView};
use crate::strmap::{map_of, StringMap};
use crate::text::owned;
use vstd::prelude::*;

verus! {

/// Options of a replay.
#[derive(Debug, Clone, Copy, PartialEq, Eq, Structural)]
pub struct ReplayOptions {
    /// The most messages replayed.
    pub max_messages: usize,
    /// How far back to look, in seconds.
    pub time_range_seconds: u64,
    /// Whether presence is replayed too.
    pub include_presence: bool,
    /// Whether the replayed state is compressed.
    pub compress_state: bool,
    /// How many messages are processed at a time.
    pub batch_size: usize,
    /// The limit of each replay operation, in seconds.
    pub timeout_seconds: u64,
}

impl Default for ReplayOptions {
    fn default() -> (o: ReplayOptions)
        ensures
            o == (ReplayOptions {
                max_messages: 1000,
                time_range_seconds: 3600,
                include_presence: true,
                compress_state: false,
                batch_size: 100,
                timeout_seconds: 30,
            }),
    {
        ReplayOptions {
            max_messages: 1000,
            time_range_seconds: 3600,
            include_presence: true,
            compress_state: false,
            batch_size: 100,
            timeout_seconds: 30,
        }
    }
}

/// How a snapshot was made.
#[derive(Debug, Clone, Copy, PartialEq, Eq, Structural)]
pub struct SnapshotMetadata {
    /// Messages processed.
    pub messages_processed: usize,
    /// Presence events processed.
    pub presence_processed: usize,
    /// How long the replay took, in milliseconds.
    pub replay_duration_ms: u64,
    /// The options of the replay.
    pub options: ReplayOptions,
}

/// A snapshot taken at `timestamp` is younger than `max_age_seconds` at
/// time `now`; times in milliseconds.
pub open spec fn recent_at(timestamp: i64, now: i64, max_age_seconds: u64) -> bool {
    now - timestamp < max_age_seconds * 1000
}

/// Whether a snapshot taken at `timestamp` (milliseconds) is younger than
/// `max_age_seconds` at time `now` (milliseconds). The limit in
/// milliseconds must fit an `i64`.
pub fn is_recent_at(timestamp: i64, now: i64, max_age_seconds: u64) -> (b: bool)
    requires
        max_age_seconds * 1000 <= i64::MAX,
    ensures
        b == recent_at(timestamp, now, max_age_seconds),
{
    (now as i128) - (timestamp as i128) < (max_age_seconds as i128) * 1000
}

/// The values of a state by what they denote.
pub open spec fn state_models(m: Map<Seq<char>, JsonValue>) -> Map<Seq<char>, JsonModel> {
    m.map_values(|v: JsonValue| json_model(v))
}

/// Presence by what each member's message says.
pub open spec fn presence_views(m: Map<Seq<char>, PresenceMessage>) -> Map<Seq<char>, PresenceView> {
    m.map_values(|p: PresenceMessage| p@)
}

proof fn lemma_models_insert(m: Map<Seq<char>, JsonValue>, k: Seq<char>, v: JsonValue)
    ensures
        state_models(m.insert(k, v)) == state_models(m).insert(k, json_model(v)),
{
    assert(state_models(m.insert(k, v)) =~= state_models(m).insert(k, json_model(v)));
}

proof fn lemma_models_remove(m: Map<Seq<char>, JsonValue>, k: Seq<char>)
    ensures
        state_models(m.remove(k)) == state_models(m).remove(k),
{
    assert(state_models(m.remove(k)) =~= state_models(m).remove(k));
}

/// The state after the members of an object are stored, one after the
/// other.
pub open spec fn merge_members(state: Map<Seq<char>, JsonModel>, ms: Seq<(String, JsonValue)>) -> Map<Seq<char>, JsonModel>
    decreases ms.len(),
{
    if ms.len() == 0 {
        state
    } else {
        merge_members(state, ms.drop_last()).insert(ms.last().0@, json_model(ms.last().1))
    }
}

/// The state after a replayed message: a message with a name and data
/// stores its data under its name; then `state:clear` empties the state,
/// `state:delete` with a string removes that key and `state:merge` with an
/// object stores each member.
pub open spec fn message_state_step(state: Map<Seq<char>, JsonModel>, m: Message) -> Map<Seq<char>, JsonModel> {
    match (m.name, m.data) {
        (Some(name), Some(data)) => {
            let stored = state.insert(name@, json_model(data));
            if name@ == "state:clear"@ {
                Map::empty()
            } else if name@ == "state:delete"@ {
                match data {
                    JsonValue::String(k) => stored.remove(k@),
                    _ => stored,
                }
            } else if name@ == "state:merge"@ {
                match data {
                    JsonValue::Object(ms) => merge_members(stored, ms@),
                    _ => stored,
                }
            } else {
                stored
            }
        },
        _ => state,
    }
}

/// The state after the messages, in order.
pub open spec fn message_state_after(state: Map<Seq<char>, JsonModel>, ms: Seq<Message>) -> Map<Seq<char>, JsonModel>
    decreases ms.len(),
{
    if ms.len() == 0 {
        state
    } else {
        message_state_step(message_state_after(state, ms.drop_last()), ms.last())
    }
}

/// Applies a replayed message to the state.
pub fn process_message_for_state(message: &Message, state: &mut StringMap<JsonValue>)
    ensures
        state_models(final(state)@) == message_state_step(state_models(old(state)@), *message),
{
    match (&message.name, &message.data) {
        (Some(name), Some(data)) => {
            let d = data.clone();
            proof {
                lemma_models_insert(state@, name@, d);
            }
            state.insert(name.clone(), d);
            let n = name.clone();
            let clear = owned("state:clear");
            let delete = owned("state:delete");
            let merge = owned("state:merge");
            if n == clear {
                state.clear();
                assert(state_models(state@) =~= Map::<Seq<char>, JsonModel>::empty());
            } else if n == delete {
                if let Some(key) = data.as_str() {
                    proof {
                        lemma_models_remove(state@, key@);
                    }
                    state.remove(key.as_str());
                }
            } else if n == merge {
                if let JsonValue::Object(members) = data {
                    let ghost stored = state_models(state@);
                    let mut i: usize = 0;
                    assert(members@.take(0) =~= Seq::<(String, JsonValue)>::empty());
                    while i < members.len()
                        invariant
                            0 <= i <= members.len(),
                            state_models(state@) == merge_members(stored, members@.take(i as int)),
                        decreases members.len() - i,
                    {
                        let v = members[i].1.clone();
                        proof {
                            lemma_models_insert(state@, members@[i as int].0@, v);
                            assert(members@.take(i + 1).drop_last() =~= members@.take(i as int));
                            assert(members@.take(i + 1).last() == members@[i as int]);
                        }
                        state.insert(members[i].0.clone(), v);
                        i = i + 1;
                    }
                    assert(members@.take(members@.len() as int) =~= members@);
                }
            }
        },
        _ => {},
    }
}

/// Rebuilds the state from messages in the order given.
pub fn rebuild_message_state(messages: &[Message]) -> (state: StringMap<JsonValue>)
    ensures
        state_models(state@) == message_state_after(Map::empty(), messages@),
{
    let mut state: StringMap<JsonValue> = StringMap::new();
    assert(state_models(state@) =~= Map::<Seq<char>, JsonModel>::empty());
    let mut i: usize = 0;
    assert(messages@.take(0) =~= Seq::<Message>::empty());
    while i < messages.len()
        invariant
            0 <= i <= messages.len(),
            state_models(state@) == message_state_after(Map::empty(), messages@.take(i as int)),
        decreases messages.len() - i,
    {
        proof {
            assert(messages@.take(i + 1).drop_last() =~= messages@.take(i as int));
            assert(messages@.take(i + 1).last() == messages@[i as int]);
        }
        process_message_for_state(&messages[i], &mut state);
        i = i + 1;
    }
    assert(messages@.take(messages@.len() as int) =~= messages@);
    state
}

/// The presence after a replayed presence message: entering or updating
/// puts the member's message in place, leaving removes the member, other
/// actions and messages without a client change nothing.
pub open spec fn presence_state_step(state: Map<Seq<char>, PresenceView>, p: PresenceView) -> Map<Seq<char>, PresenceView> {
    match p.client_id {
        Some(c) => match p.action {
            PresenceAction::Enter | PresenceAction::Update => state.insert(c, p),
            PresenceAction::Leave => state.remove(c),
            _ => state,
        },
        None => state,
    }
}

/// The presence after the messages, in order.
pub open spec fn presence_state_after(state: Map<Seq<char>, PresenceView>, ps: Seq<PresenceView>) -> Map<Seq<char>, PresenceView>
    decreases ps.len(),
{
    if ps.len() == 0 {
        state
    } else {
        presence_state_step(presence_state_after(state, ps.drop_last()), ps.last())
    }
}

/// Applies a replayed presence message to the presence.
pub fn process_presence_for_state(presence: PresenceMessage, state: &mut StringMap<PresenceMessage>)
    ensures
        presence_views(final(state)@) == presence_state_step(presence_views(old(state)@), presence@),
{
    let ghost view = presence@;
    match &presence.client_id {
        Some(c) => {
            let key = c.clone();
            match presence.action {
                PresenceAction::Enter | PresenceAction::Update => {
                    let ghost before = state@;
                    state.insert(key, presence);
                    assert(presence_views(state@) =~= presence_views(before).insert(view.client_id->0, view));
                },
                PresenceAction::Leave => {
                    let ghost before = state@;
                    state.remove(key.as_str());
                    assert(presence_views(state@) =~= presence_views(before).remove(view.client_id->0));
                },
                _ => {},
            }
        },
        None => {},
    }
}

/// Rebuilds presence from presence messages in the order given.
pub fn rebuild_presence_state(presence: Vec<PresenceMessage>) -> (state: StringMap<PresenceMessage>)
    ensures
        presence_views(state@) == presence_state_after(Map::empty(), presence@.map_values(|p: PresenceMessage| p@)),
{
    let ghost views = presence@.map_values(|p: PresenceMessage| p@);
    let mut state: StringMap<PresenceMessage> = StringMap::new();
    assert(presence_views(state@) =~= Map::<Seq<char>, PresenceView>::empty());
    let mut rest = presence;
    let mut taken: Vec<PresenceMessage> = Vec::new();
    let count = rest.len();
    let ghost n = count as nat;
    // Take the messages from the front by reversing once.
    while rest.len() > 0
        invariant
            taken@.len() + rest@.len() == n,
            forall|j: int| 0 <= j < taken@.len() ==> (#[trigger] taken@[j])@ == views[n - 1 - j],
            forall|j: int| 0 <= j < rest@.len() ==> (#[trigger] rest@[j])@ == views[j],
            views.len() == n,
            presence_views(state@) =~= Map::<Seq<char>, PresenceView>::empty(),
        decreases rest@.len(),
    {
        let p = rest.pop().unwrap();
        taken.push(p);
    }
    let mut i: usize = 0;
    assert(views.take(0) =~= Seq::<PresenceView>::empty());
    while taken.len() > 0
        invariant
            taken@.len() + i == n,
            n == count,
            forall|j: int| 0 <= j < taken@.len() ==> (#[trigger] taken@[j])@ == views[n - 1 - j],
            views.len() == n,
            presence_views(state@) == presence_state_after(Map::empty(), views.take(i as int)),
        decreases taken@.len(),
    {
        let p = taken.pop().unwrap();
        proof {
            assert(p@ == views[i as int]);
            assert(views.take(i + 1).drop_last() =~= views.take(i as int));
            assert(views.take(i + 1).last() == views[i as int]);
        }
        process_presence_for_state(p, &mut state);
        i = i + 1;
    }
    assert(views.take(n as int) =~= views);
    state
}

/// What a replay produced.
#[derive(Debug)]
pub struct ReplayResult {
    /// Messages processed.
    pub messages_processed: usize,
    /// Presence messages processed.
    pub presence_processed: usize,
    /// The state that the messages left.
    pub final_state: StringMap<JsonValue>,
    /// The presence that the presence messages left.
    pub presence_state: StringMap<PresenceMessage>,
    /// How long the replay took, in milliseconds.
    pub duration_ms: u64,
    /// Problems met on the way.
    pub warnings: Vec<String>,
    /// Whether the replay completed.
    pub success: bool,
}

/// The state of a channel at a point in time.
#[derive(Debug)]
pub struct StateSnapshot {
    pub channel: String,
    /// When the snapshot was made, in milliseconds since the epoch.
    pub timestamp: i64,
    pub message_state: StringMap<JsonValue>,
    pub presence_state: StringMap<PresenceMessage>,
    pub metadata: SnapshotMetadata,
}

impl StateSnapshot {
    /// Whether the snapshot is younger than `max_age_seconds` at time `now`.
    pub fn is_recent_at(&self, max_age_seconds: u64, now: i64) -> (b: bool)
        requires
            max_age_seconds * 1000 <= i64::MAX,
        ensures
            b == recent_at(self.timestamp, now, max_age_seconds),
    {
        is_recent_at(self.timestamp, now, max_age_seconds)
    }

    /// Whether the snapshot is younger than `max_age_seconds` now. The
    /// answer depends on the clock: it is that of `is_recent_at` for some
    /// time.
    pub fn is_recent(&self, max_age_seconds: u64) -> (b: bool)
        requires
            max_age_seconds * 1000 <= i64::MAX,
        ensures
            exists|now: i64| b == #[trigger] recent_at(self.timestamp, now, max_age_seconds),
    {
        let now = crate::time::unix_millis_now();
        self.is_recent_at(max_age_seconds, now)
    }

    /// The value stored under `key`.
    pub fn get_state_value(&self, key: &str) -> (r: Option<&JsonValue>)
        ensures
            match r {
                Some(v) => self.message_state@.dom().contains(key@) && self.message_state@[key@] == *v,
                None => !self.message_state@.dom().contains(key@),
            },
    {
        self.message_state.get(key)
    }

    /// Whether the client is present.
    pub fn is_client_present(&self, client_id: &str) -> (b: bool)
        ensures
            b == self.presence_state@.dom().contains(client_id@),
    {
        self.presence_state.contains_key(client_id)
    }

    /// The present clients, once each.
    pub fn present_clients(&self) -> (r: Vec<String>)
        ensures
            r@.len() == self.presence_state@.dom().len(),
            forall|k: Seq<char>| self.presence_state@.dom().contains(k) <==> exists|i: int| 0 <= i < r@.len() && (#[trigger] r@[i])@ == k,
            forall|i: int, j: int| 0 <= i < j < r@.len() ==> (#[trigger] r@[i])@ != (#[trigger] r@[j])@,
    {
        self.presence_state.keys()
    }
}

/// Replays channels with its options; the history it works on is fetched
/// by the caller.
#[derive(Debug, Clone, Copy)]
pub struct ReplayManager {
    pub options: ReplayOptions,
}

impl ReplayManager {
    /// A manager with the default options.
    pub fn new() -> (m: ReplayManager)
        ensures
            m.options == (ReplayOptions {
                max_messages: 1000,
                time_range_seconds: 3600,
                include_presence: true,
                compress_state: false,
                batch_size: 100,
                timeout_seconds: 30,
            }),
    {
        ReplayManager { options: ReplayOptions::default() }
    }

    /// A manager with the options given.
    pub fn with_options(options: ReplayOptions) -> (m: ReplayManager)
        ensures
            m.options == options,
    {
        ReplayManager { options }
    }

    /// The snapshot of a replay of `channel` made at `timestamp`.
    pub fn snapshot_from(&self, channel: String, timestamp: i64, result: ReplayResult) -> (s: StateSnapshot)
        ensures
            s.channel == channel,
            s.timestamp == timestamp,
            s.message_state@ == result.final_state@,
            s.presence_state@ == result.presence_state@,
            s.metadata == (SnapshotMetadata {
                messages_processed: result.messages_processed,
                presence_processed: result.presence_processed,
                replay_duration_ms: result.duration_ms,
                options: self.options,
            }),
    {
        StateSnapshot {
            channel,
            timestamp,
            message_state: result.final_state,
            presence_state: result.presence_state,
            metadata: SnapshotMetadata {
                messages_processed: result.messages_processed,
                presence_processed: result.presence_processed,
                replay_duration_ms: result.duration_ms,
                options: self.options,
            },
        }
    }
}

/// The first position of `order` whose time is later than the time of
/// `i`, or the length of `order` when there is none.
pub open spec fn first_later(order: Seq<int>, times: Seq<i64>, i: int) -> int
    decreases order.len(),
{
    if order.len() == 0 {
        0
    } else if times[order[0]] > times[i] {
        0
    } else {
        1 + first_later(order.drop_first(), times, i)
    }
}

/// The first `n` positions of `times` ordered by time; each goes in
/// after those with the same time or earlier, so equal times keep their
/// order.
pub open spec fn order_by_time(times: Seq<i64>, n: nat) -> Seq<int>
    decreases n,
{
    if n == 0 {
        Seq::empty()
    } else {
        let o = order_by_time(times, (n - 1) as nat);
        o.insert(first_later(o, times, n - 1), n - 1)
    }
}

proof fn lemma_first_later(order: Seq<int>, times: Seq<i64>, i: int, p: int)
    requires
        0 <= p <= order.len(),
        forall|q: int| 0 <= q < p ==> times[#[trigger] order[q]] <= times[i],
        p == order.len() || times[order[p]] > times[i],
    ensures
        first_later(order, times, i) == p,
    decreases order.len(),
{
    if order.len() > 0 && p > 0 {
        let rest = order.drop_first();
        assert(times[order[0]] <= times[i]);
        assert forall|q: int| 0 <= q < p - 1 implies times[#[trigger] rest[q]] <= times[i] by {
            assert(rest[q] == order[q + 1]);
        }
        if p - 1 < rest.len() {
            assert(rest[p - 1] == order[p]);
        }
        lemma_first_later(rest, times, i, p - 1);
    }
}

proof fn lemma_first_later_bounded(order: Seq<int>, times: Seq<i64>, i: int)
    ensures
        0 <= first_later(order, times, i) <= order.len(),
    decreases order.len(),
{
    if order.len() > 0 {
        lemma_first_later_bounded(order.drop_first(), times, i);
    }
}

/// The positions of `times` ordered by time, equal times in their order.
pub fn time_order(times: &[i64]) -> (order: Vec<usize>)
    ensures
        order@.len() == times@.len(),
        forall|j: int| 0 <= j < order@.len() ==> #[trigger] order@[j] as int == order_by_time(times@, times@.len())[j],
        forall|j: int| 0 <= j < order@.len() ==> #[trigger] order@[j] < times@.len(),
        order_by_time(times@, times@.len()).len() == times@.len(),
{
    let n = times.len();
    let mut order: Vec<usize> = Vec::new();
    let mut i: usize = 0;
    while i < n
        invariant
            n == times@.len(),
            0 <= i <= n,
            order@.len() == i,
            order_by_time(times@, i as nat).len() == i,
            forall|j: int| 0 <= j < i ==> #[trigger] order@[j] as int == order_by_time(times@, i as nat)[j],
            forall|j: int| 0 <= j < i ==> #[trigger] order@[j] < i,
        decreases n - i,
    {
        let ghost o = order_by_time(times@, i as nat);
        let mut p: usize = 0;
        while p < i && times[order[p]] <= times[i]
            invariant
                n == times@.len(),
                0 <= p <= i < n,
                order@.len() == i,
                o.len() == i,
                forall|j: int| 0 <= j < i ==> #[trigger] order@[j] as int == o[j],
                forall|j: int| 0 <= j < i ==> #[trigger] order@[j] < i,
                forall|q: int| 0 <= q < p ==> times@[#[trigger] o[q]] <= times@[i as int],
            decreases i - p,
        {
            p = p + 1;
        }
        proof {
            if p < i {
                assert(order@[p as int] as int == o[p as int]);
            }
            lemma_first_later(o, times@, i as int, p as int);
        }
        let ghost before = order@;
        order.insert(p, i);
        proof {
            let o2 = order_by_time(times@, (i + 1) as nat);
            assert(o2 == o.insert(p as int, i as int));
            o.insert_ensures(p as int, i as int);
            before.insert_ensures(p as int, i);
            assert forall|j: int| 0 <= j < i + 1 implies #[trigger] order@[j] as int == o2[j] by {
                if j < p {
                    assert(order@[j] == before[j]);
                } else if j > p {
                    assert(order@[j] == before[j - 1]);
                }
            }
            assert forall|j: int| 0 <= j < i + 1 implies #[trigger] order@[j] < i + 1 by {
                if j < p {
                    assert(order@[j] == before[j]);
                } else if j > p {
                    assert(order@[j] == before[j - 1]);
                }
            }
        }
        i = i + 1;
    }
    order
}

/// The timestamps of messages, zero where there is none.
pub open spec fn message_stamps(ms: Seq<Message>) -> Seq<i64> {
    ms.map_values(
        |m: Message|
            match m.timestamp {
                Some(t) => t,
                None => 0,
            },
    )
}

/// The timestamps of presence messages, zero where there is none.
pub open spec fn presence_stamps(ps: Seq<PresenceView>) -> Seq<i64> {
    ps.map_values(
        |p: PresenceView|
            match p.timestamp {
                Some(t) => t,
                None => 0,
            },
    )
}

/// The items ordered by their times, equal times in their order.
pub open spec fn in_time_order<T>(items: Seq<T>, times: Seq<i64>) -> Seq<T> {
    order_by_time(times, items.len()).map_values(|i: int| items[i])
}

/// What presence messages say, in order.
pub open spec fn presence_list(ps: Seq<PresenceMessage>) -> Seq<PresenceView> {
    ps.map_values(|p: PresenceMessage| p@)
}

/// The state that messages leave when replayed in time order.
pub fn replay_message_state(messages: &[Message]) -> (state: StringMap<JsonValue>)
    ensures
        state_models(state@) == message_state_after(Map::empty(), in_time_order(messages@, message_stamps(messages@))),
{
    let ghost stamps = message_stamps(messages@);
    let mut times: Vec<i64> = Vec::new();
    let mut i: usize = 0;
    while i < messages.len()
        invariant
            0 <= i <= messages@.len(),
            stamps == message_stamps(messages@),
            times@ == stamps.take(i as int),
        decreases messages@.len() - i,
    {
        times.push(
            match messages[i].timestamp {
                Some(t) => t,
                None => 0,
            },
        );
        assert(times@ =~= stamps.take(i + 1));
        i = i + 1;
    }
    assert(times@ =~= stamps);
    let order = time_order(times.as_slice());
    let ghost sorted = in_time_order(messages@, stamps);
    assert(stamps.len() == messages@.len());
    assert(sorted.len() == order@.len());
    let mut state: StringMap<JsonValue> = StringMap::new();
    assert(state_models(state@) =~= Map::<Seq<char>, JsonModel>::empty());
    let mut j: usize = 0;
    assert(sorted.take(0) =~= Seq::<Message>::empty());
    while j < order.len()
        invariant
            0 <= j <= order@.len(),
            order@.len() == messages@.len(),
            order_by_time(times@, times@.len()).len() == times@.len(),
            times@ == stamps,
            sorted == in_time_order(messages@, stamps),
            sorted.len() == order@.len(),
            times@.len() == messages@.len(),
            forall|k: int| 0 <= k < order@.len() ==> #[trigger] order@[k] as int == order_by_time(times@, times@.len())[k],
            forall|k: int| 0 <= k < order@.len() ==> #[trigger] order@[k] < times@.len(),
            state_models(state@) == message_state_after(Map::empty(), sorted.take(j as int)),
        decreases order@.len() - j,
    {
        proof {
            assert(sorted.take(j + 1).drop_last() =~= sorted.take(j as int));
            assert(sorted.take(j + 1).last() == sorted[j as int]);
            assert(order@[j as int] as int == order_by_time(times@, times@.len())[j as int]);
            assert(sorted[j as int] == messages@[order@[j as int] as int]);
        }
        process_message_for_state(&messages[order[j]], &mut state);
        j = j + 1;
    }
    assert(sorted.take(order@.len() as int) =~= sorted);
    state
}

/// Copies of presence messages in time order, equal times in their
/// order.
pub fn presence_in_time_order(presence: &[PresenceMessage]) -> (r: Vec<PresenceMessage>)
    ensures
        presence_list(r@) == in_time_order(presence_list(presence@), presence_stamps(presence_list(presence@))),
{
    let ghost views = presence_list(presence@);
    let ghost stamps = presence_stamps(views);
    let mut times: Vec<i64> = Vec::new();
    let mut i: usize = 0;
    while i < presence.len()
        invariant
            0 <= i <= presence@.len(),
            views == presence_list(presence@),
            stamps == presence_stamps(views),
            times@ == stamps.take(i as int),
        decreases presence@.len() - i,
    {
        times.push(
            match presence[i].timestamp {
                Some(t) => t,
                None => 0,
            },
        );
        assert(times@ =~= stamps.take(i + 1));
        i = i + 1;
    }
    assert(times@ =~= stamps);
    let order = time_order(times.as_slice());
    let ghost sorted = in_time_order(views, stamps);
    assert(stamps.len() == presence@.len());
    assert(sorted.len() == order@.len());
    let mut r: Vec<PresenceMessage> = Vec::new();
    let mut j: usize = 0;
    while j < order.len()
        invariant
            0 <= j <= order@.len(),
            order@.len() == presence@.len(),
            order_by_time(times@, times@.len()).len() == times@.len(),
            times@ == stamps,
            views == presence_list(presence@),
            sorted == in_time_order(views, stamps),
            sorted.len() == order@.len(),
            times@.len() == presence@.len(),
            forall|k: int| 0 <= k < order@.len() ==> #[trigger] order@[k] as int == order_by_time(times@, times@.len())[k],
            forall|k: int| 0 <= k < order@.len() ==> #[trigger] order@[k] < times@.len(),
            presence_list(r@) == sorted.take(j as int),
        decreases order@.len() - j,
    {
        let p = presence[order[j]].clone();
        let ghost before = r@;
        r.push(p);
        proof {
            assert(sorted[j as int] == views[order@[j as int] as int]);
            assert(presence_list(before.push(p)) =~= presence_list(before).push(p@));
            assert(sorted.take(j + 1) =~= sorted.take(j as int).push(sorted[j as int]));
        }
        j = j + 1;
    }
    assert(sorted.take(order@.len() as int) =~= sorted);
    r
}

/// The presence that presence messages leave when replayed in time order.
pub fn replay_presence_state(presence: &[PresenceMessage]) -> (state: StringMap<PresenceMessage>)
    ensures
        presence_views(state@) == presence_state_after(
            Map::empty(),
            in_time_order(presence_list(presence@), presence_stamps(presence_list(presence@))),
        ),
{
    let sorted = presence_in_time_order(presence);
    proof {
        assert(sorted@.map_values(|p: PresenceMessage| p@) =~= presence_list(sorted@));
    }
    rebuild_presence_state(sorted)
}

/// The warning of a replay whose presence history could not be had.
pub open spec fn presence_warning(reason: Seq<char>) -> Seq<char> {
    "Presence history unavailable: "@ + reason
}

/// The warning of a replay that failed.
pub open spec fn failure_warning(reason: Seq<char>) -> Seq<char> {
    "Replay failed: "@ + reason
}

impl ReplayResult {
    /// The result of a replay that failed for `reason`.
    pub fn failure(reason: &str) -> (r: ReplayResult)
        ensures
            r.messages_processed == 0,
            r.presence_processed == 0,
            r.final_state@ == Map::<Seq<char>, JsonValue>::empty(),
            r.presence_state@ == Map::<Seq<char>, PresenceMessage>::empty(),
            r.duration_ms == 0,
            r.warnings@.len() == 1,
            r.warnings@[0]@ == failure_warning(reason@),
            !r.success,
    {
        let mut w = owned("Replay failed: ");
        crate::text::append(&mut w, reason);
        let mut warnings: Vec<String> = Vec::new();
        warnings.push(w);
        ReplayResult {
            messages_processed: 0,
            presence_processed: 0,
            final_state: StringMap::new(),
            presence_state: StringMap::new(),
            duration_ms: 0,
            warnings,
            success: false,
        }
    }
}

impl ReplayManager {
    /// The result of replaying a channel from its fetched history: the
    /// messages in time order make the state; when presence is included,
    /// the presence history in time order makes the presence, or, when it
    /// could not be fetched (`Err` with the reason), a warning says so.
    pub fn replay_result(
        &self,
        messages: &[Message],
        presence: Option<Result<Vec<PresenceMessage>, String>>,
        duration_ms: u64,
    ) -> (r: ReplayResult)
        ensures
            r.messages_processed == messages@.len(),
            state_models(r.final_state@) == message_state_after(Map::empty(), in_time_order(messages@, message_stamps(messages@))),
            r.duration_ms == duration_ms,
            r.success,
            match presence {
                Some(Ok(ps)) if self.options.include_presence => {
                    &&& presence_views(r.presence_state@) == presence_state_after(
                        Map::empty(),
                        in_time_order(presence_list(ps@), presence_stamps(presence_list(ps@))),
                    )
                    &&& r.presence_processed == ps@.len()
                    &&& r.warnings@.len() == 0
                },
                Some(Err(e)) if self.options.include_presence => {
                    &&& r.presence_state@ == Map::<Seq<char>, PresenceMessage>::empty()
                    &&& r.presence_processed == 0
                    &&& r.warnings@.len() == 1
                    &&& r.warnings@[0]@ == presence_warning(e@)
                },
                _ => {
                    &&& r.presence_state@ == Map::<Seq<char>, PresenceMessage>::empty()
                    &&& r.presence_processed == 0
                    &&& r.warnings@.len() == 0
                },
            },
    {
        let final_state = replay_message_state(messages);
        let mut warnings: Vec<String> = Vec::new();
        let mut presence_state: StringMap<PresenceMessage> = StringMap::new();
        let mut presence_processed: usize = 0;
        if self.options.include_presence {
            match presence {
                Some(Ok(ps)) => {
                    presence_state = replay_presence_state(ps.as_slice());
                    presence_processed = ps.len();
                },
                Some(Err(e)) => {
                    let mut w = owned("Presence history unavailable: ");
                    crate::text::append(&mut w, e.as_str());
                    warnings.push(w);
                },
                None => {},
            }
        }
        ReplayResult {
            messages_processed: messages.len(),
            presence_processed,
            final_state,
            presence_state,
            duration_ms,
            warnings,
            success: true,
        }
    }
}

/// A copy of a state.
pub fn copy_state(m: &StringMap<JsonValue>) -> (r: StringMap<JsonValue>)
    ensures
        state_models(r@) == state_models(m@),
{
    let n = m.len();
    let ghost pairs = m.pairs();
    let mut r: StringMap<JsonValue> = StringMap::new();
    let mut i: usize = 0;
    assert(pairs.take(0) =~= Seq::<(String, JsonValue)>::empty());
    assert(state_models(r@) =~= state_models(map_of(pairs.take(0))));
    while i < n
        invariant
            n == pairs.len(),
            pairs == m.pairs(),
            m@ == map_of(pairs),
            0 <= i <= n,
            state_models(r@) == state_models(map_of(pairs.take(i as int))),
        decreases n - i,
    {
        let v = m.value_at(i).clone();
        let ghost before = r@;
        r.insert(m.key_at(i).clone(), v);
        proof {
            assert(pairs.take(i + 1).drop_last() =~= pairs.take(i as int));
            assert(pairs.take(i + 1).last() == pairs[i as int]);
            lemma_models_insert(before, pairs[i as int].0@, v);
            lemma_models_insert(map_of(pairs.take(i as int)), pairs[i as int].0@, pairs[i as int].1);
        }
        i = i + 1;
    }
    assert(pairs.take(n as int) =~= pairs);
    r
}

/// A copy of a presence.
pub fn copy_presence(m: &StringMap<PresenceMessage>) -> (r: StringMap<PresenceMessage>)
    ensures
        presence_views(r@) == presence_views(m@),
{
    let n = m.len();
    let ghost pairs = m.pairs();
    let mut r: StringMap<PresenceMessage> = StringMap::new();
    let mut i: usize = 0;
    assert(pairs.take(0) =~= Seq::<(String, PresenceMessage)>::empty());
    assert(presence_views(r@) =~= presence_views(map_of(pairs.take(0))));
    while i < n
        invariant
            n == pairs.len(),
            pairs == m.pairs(),
            m@ == map_of(pairs),
            0 <= i <= n,
            presence_views(r@) == presence_views(map_of(pairs.take(i as int))),
        decreases n - i,
    {
        let v = m.value_at(i).clone();
        let ghost before = r@;
        r.insert(m.key_at(i).clone(), v);
        proof {
            assert(pairs.take(i + 1).drop_last() =~= pairs.take(i as int));
            assert(pairs.take(i + 1).last() == pairs[i as int]);
            assert(presence_views(before.insert(pairs[i as int].0@, v)) =~= presence_views(before).insert(pairs[i as int].0@, v@));
            assert(presence_views(map_of(pairs.take(i as int)).insert(pairs[i as int].0@, pairs[i as int].1))
                =~= presence_views(map_of(pairs.take(i as int))).insert(pairs[i as int].0@, pairs[i as int].1@));
        }
        i = i + 1;
    }
    assert(pairs.take(n as int) =~= pairs);
    r
}

/// Stores every entry of `src` into `dst`, in place of what was there.
pub fn merge_state_into(dst: &mut StringMap<JsonValue>, src: &StringMap<JsonValue>)
    ensures
        state_models(final(dst)@) == state_models(old(dst)@).union_prefer_right(state_models(src@)),
{
    let n = src.len();
    let ghost pairs = src.pairs();
    let ghost start = state_models(dst@);
    let mut i: usize = 0;
    assert(pairs.take(0) =~= Seq::<(String, JsonValue)>::empty());
    assert(start.union_prefer_right(state_models(map_of(pairs.take(0)))) =~= start);
    while i < n
        invariant
            n == pairs.len(),
            pairs == src.pairs(),
            src@ == map_of(pairs),
            0 <= i <= n,
            state_models(dst@) == start.union_prefer_right(state_models(map_of(pairs.take(i as int)))),
        decreases n - i,
    {
        let v = src.value_at(i).clone();
        let ghost before = dst@;
        dst.insert(src.key_at(i).clone(), v);
        proof {
            assert(pairs.take(i + 1).drop_last() =~= pairs.take(i as int));
            assert(pairs.take(i + 1).last() == pairs[i as int]);
            lemma_models_insert(before, pairs[i as int].0@, v);
            lemma_models_insert(map_of(pairs.take(i as int)), pairs[i as int].0@, pairs[i as int].1);
            let k = pairs[i as int].0@;
            let m = state_models(map_of(pairs.take(i as int)));
            assert(start.union_prefer_right(m.insert(k, json_model(v))) =~= start.union_prefer_right(m).insert(k, json_model(v)));
        }
        i = i + 1;
    }
    assert(pairs.take(n as int) =~= pairs);
}

proof fn lemma_first_later_facts(order: Seq<int>, times: Seq<i64>, i: int)
    ensures
        0 <= first_later(order, times, i) <= order.len(),
        forall|q: int| 0 <= q < first_later(order, times, i) ==> times[#[trigger] order[q]] <= times[i],
        first_later(order, times, i) < order.len() ==> times[order[first_later(order, times, i)]] > times[i],
    decreases order.len(),
{
    if order.len() > 0 && times[order[0]] <= times[i] {
        let rest = order.drop_first();
        lemma_first_later_facts(rest, times, i);
        let p = first_later(order, times, i);
        assert forall|q: int| 0 <= q < p implies times[#[trigger] order[q]] <= times[i] by {
            if q > 0 {
                assert(order[q] == rest[q - 1]);
            }
        }
        if p < order.len() {
            assert(order[p] == rest[p - 1]);
        }
    }
}

/// The first `n` positions ordered by time hold each position below `n`
/// once, their times never decrease, and equal times keep their order.
pub open spec fn chronological(times: Seq<i64>, o: Seq<int>, n: nat) -> bool {
    &&& o.len() == n
    &&& forall|a: int| 0 <= a < o.len() ==> 0 <= #[trigger] o[a] < n
    &&& forall|a: int, b: int| 0 <= a < b < o.len() ==> #[trigger] o[a] != #[trigger] o[b]
    &&& forall|a: int, b: int| 0 <= a < b < o.len() ==> times[#[trigger] o[a]] <= times[#[trigger] o[b]]
    &&& forall|a: int, b: int| 0 <= a < b < o.len() && times[#[trigger] o[a]] == times[#[trigger] o[b]] ==> o[a] < o[b]
}

proof fn lemma_order_prefix(times: Seq<i64>, n: nat)
    requires
        n <= times.len(),
    ensures
        chronological(times, order_by_time(times, n), n),
    decreases n,
{
    if n > 0 {
        lemma_order_prefix(times, (n - 1) as nat);
        let o = order_by_time(times, (n - 1) as nat);
        let i = n - 1;
        let p = first_later(o, times, i);
        lemma_first_later_facts(o, times, i);
        let o2 = o.insert(p, i);
        o.insert_ensures(p, i);
        assert(order_by_time(times, n) == o2);
        // Where each position of `o2` came from in `o`.
        assert forall|a: int| 0 <= a < o2.len() implies 0 <= #[trigger] o2[a] < n by {
            if a < p {
                assert(o2[a] == o[a]);
            } else if a > p {
                assert(o2[a] == o[a - 1]);
            }
        }
        assert forall|a: int, b: int| 0 <= a < b < o2.len() implies #[trigger] o2[a] != #[trigger] o2[b] by {
            if a < p && b < p {
                assert(o2[a] == o[a] && o2[b] == o[b]);
            } else if a < p && b > p {
                assert(o2[a] == o[a] && o2[b] == o[b - 1]);
            } else if a > p && b > p {
                assert(o2[a] == o[a - 1] && o2[b] == o[b - 1]);
            } else if a == p {
                if b > p {
                    assert(o2[b] == o[b - 1]);
                }
            } else {
                assert(o2[a] == o[a]);
            }
        }
        assert forall|a: int, b: int| 0 <= a < b < o2.len() implies times[#[trigger] o2[a]] <= times[#[trigger] o2[b]] by {
            if a < p && b < p {
                assert(o2[a] == o[a] && o2[b] == o[b]);
            } else if a < p && b > p {
                assert(o2[a] == o[a] && o2[b] == o[b - 1]);
            } else if a > p && b > p {
                assert(o2[a] == o[a - 1] && o2[b] == o[b - 1]);
            } else if a == p {
                assert(o2[b] == o[b - 1]);
                assert(times[o[p]] > times[i]);
                if b - 1 > p {
                    assert(times[o[p]] <= times[o[b - 1]]);
                }
            } else {
                assert(o2[a] == o[a]);
            }
        }
        assert forall|a: int, b: int| 0 <= a < b < o2.len() && times[#[trigger] o2[a]] == times[#[trigger] o2[b]] implies o2[a] < o2[b] by {
            if a < p && b < p {
                assert(o2[a] == o[a] && o2[b] == o[b]);
            } else if a < p && b > p {
                assert(o2[a] == o[a] && o2[b] == o[b - 1]);
            } else if a > p && b > p {
                assert(o2[a] == o[a - 1] && o2[b] == o[b - 1]);
            } else if a == p {
                assert(o2[b] == o[b - 1]);
                assert(times[o[p]] > times[i]);
                if b - 1 > p {
                    assert(times[o[p]] <= times[o[b - 1]]);
                }
            } else {
                assert(o2[a] == o[a]);
            }
        }
    }
}

/// Replay goes in chronological order: the positions of the messages
/// ordered by time hold each message once, their times never decrease,
/// and messages with equal times keep the order they came in.
pub proof fn law_time_order_is_chronological(times: Seq<i64>)
    ensures
        chronological(times, order_by_time(times, times.len()), times.len()),
{
    lemma_order_prefix(times, times.len());
}

/// A member that enters and then leaves is no longer present, and nobody
/// else's presence changes.
pub proof fn law_enter_then_leave(state: Map<Seq<char>, PresenceView>, enter: PresenceView, leave: PresenceView)
    requires
        enter.action == PresenceAction::Enter,
        leave.action == PresenceAction::Leave,
        enter.client_id is Some,
        leave.client_id == enter.client_id,
    ensures
        presence_state_step(presence_state_step(state, enter), leave) == state.remove(enter.client_id->0),
{
    assert(state.insert(enter.client_id->0, enter).remove(enter.client_id->0) =~= state.remove(enter.client_id->0));
}

/// A `state:clear` message with data empties the state, whatever it held.
pub proof fn law_clear_empties_state(state: Map<Seq<char>, JsonModel>, m: Message)
    requires
        m.name matches Some(n) && n@ == "state:clear"@,
        m.data is Some,
    ensures
        message_state_step(state, m) == Map::<Seq<char>, JsonModel>::empty(),
{
}

} // verus!
