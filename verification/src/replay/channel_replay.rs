//! Replay of a channel's messages with filters and analyzers.

use crate::protocol::json::{json_model, JsonModel, JsonValue};
use crate::protocol::messages::{opt_model, opt_text, same_message, Message};
use crate::replay::{order_by_time, state_models, time_order, ReplayResult};
use crate::strmap::StringMap;
use crate::text::{seq_contains, str_contains};
use vstd::prelude::*;

verus! {

/// A filter on replayed messages.
#[derive(Debug, Clone)]
pub enum MessageFilter {
    /// The name contains the pattern.
    NamePattern(String),
    /// The message is from this client.
    ClientId(String),
    /// The timestamp lies in the range, both ends included.
    TimeRange { start: i64, end: i64 },
    /// The JSON text of the data contains the text.
    DataContains(String),
    /// An expression; every message passes it.
    Expression(String),
}

/// What an analyzer of replayed messages extracts.
#[derive(Debug, Clone)]
pub enum StateAnalyzer {
    MessageCounts,
    ValueTimeline(String),
    ClientActivity,
    StateConflicts,
}

/// What a client did in the replayed messages.
#[derive(Debug, Clone, Copy, PartialEq, Eq, Structural)]
pub struct ClientMetrics {
    pub message_count: usize,
    pub first_seen: i64,
    pub last_seen: i64,
    pub unique_message_names: usize,
}

/// Whether a message passes a filter; `data_text` is the JSON text of
/// its data, for the data filter.
pub open spec fn spec_matches(m: Message, f: MessageFilter, data_text: Option<Seq<char>>) -> bool {
    match f {
        MessageFilter::NamePattern(p) => match m.name {
            Some(n) => seq_contains(n@, p@),
            None => false,
        },
        MessageFilter::ClientId(c) => opt_text(m.client_id) == Some(c@),
        MessageFilter::TimeRange { start, end } => match m.timestamp {
            Some(t) => start <= t && t <= end,
            None => false,
        },
        MessageFilter::DataContains(c) => match (m.data, data_text) {
            (Some(_), Some(t)) => seq_contains(t, c@),
            _ => false,
        },
        MessageFilter::Expression(_) => true,
    }
}

/// A message passes a time-range filter exactly when it has a timestamp
/// `t` with `start <= t <= end`: one before the range, after it, or
/// without a timestamp is rejected.
pub proof fn law_time_range_filter(m: Message, start: i64, end: i64, data_text: Option<Seq<char>>)
    ensures
        spec_matches(m, MessageFilter::TimeRange { start, end }, data_text) <==> (m.timestamp matches Some(t)
            && start <= t && t <= end),
        m.timestamp matches Some(t) && t < start ==> !spec_matches(m, MessageFilter::TimeRange { start, end }, data_text),
        m.timestamp matches Some(t) && t > end ==> !spec_matches(m, MessageFilter::TimeRange { start, end }, data_text),
{
}

/// A message passes a client filter exactly when it has that client id.
pub proof fn law_client_filter(m: Message, c: String, data_text: Option<Seq<char>>)
    ensures
        spec_matches(m, MessageFilter::ClientId(c), data_text) <==> (m.client_id matches Some(x) && x@ == c@),
{
}

/// A message passes a name filter exactly when it has a name in which the
/// pattern occurs as a contiguous piece.
pub proof fn law_name_filter(m: Message, pattern: String, data_text: Option<Seq<char>>)
    ensures
        spec_matches(m, MessageFilter::NamePattern(pattern), data_text) <==> (m.name matches Some(n) && exists|i: int|
            0 <= i && i + pattern@.len() <= n@.len() && #[trigger] n@.subrange(i, i + pattern@.len()) == pattern@),
{
    if let Some(n) = m.name {
        if seq_contains(n@, pattern@) {
            let i = choose|i: int| crate::text::occurs_at(n@, pattern@, i);
            assert(n@.subrange(i, i + pattern@.len()) == pattern@);
        }
        if exists|i: int| 0 <= i && i + pattern@.len() <= n@.len() && #[trigger] n@.subrange(i, i + pattern@.len())
            == pattern@ {
            let i = choose|i: int|
                0 <= i && i + pattern@.len() <= n@.len() && #[trigger] n@.subrange(i, i + pattern@.len()) == pattern@;
            assert(crate::text::occurs_at(n@, pattern@, i));
        }
    }
}

/// Whether `message` passes `filter`. The data filter looks in
/// `data_text`, the JSON text of the message's data, which the caller
/// renders.
pub fn message_matches_filter(message: &Message, filter: &MessageFilter, data_text: Option<&str>) -> (b: bool)
    ensures
        b == spec_matches(*message, *filter, match data_text {
            Some(t) => Some(t@),
            None => None,
        }),
{
    match filter {
        MessageFilter::NamePattern(pattern) => match &message.name {
            Some(name) => str_contains(name.as_str(), pattern.as_str()),
            None => false,
        },
        MessageFilter::ClientId(client_id) => match &message.client_id {
            Some(c) => *c == *client_id,
            None => false,
        },
        MessageFilter::TimeRange { start, end } => match message.timestamp {
            Some(t) => t >= *start && t <= *end,
            None => false,
        },
        MessageFilter::DataContains(content) => match (&message.data, data_text) {
            (Some(_), Some(t)) => str_contains(t, content.as_str()),
            _ => false,
        },
        MessageFilter::Expression(_) => true,
    }
}

/// A channel replay: the channel, its filters and its analyzers. The
/// history it works on is fetched by the caller.
#[derive(Debug, Clone)]
pub struct ChannelReplay {
    pub channel_name: String,
    pub filters: Vec<MessageFilter>,
    pub analyzers: Vec<StateAnalyzer>,
}

impl ChannelReplay {
    /// A replay of `channel_name` with no filter and no analyzer.
    pub fn new(channel_name: String) -> (r: ChannelReplay)
        ensures
            r.channel_name == channel_name,
            r.filters@.len() == 0,
            r.analyzers@.len() == 0,
    {
        ChannelReplay { channel_name, filters: Vec::new(), analyzers: Vec::new() }
    }

    /// The replay with one more filter.
    pub fn with_filter(self, filter: MessageFilter) -> (r: ChannelReplay)
        ensures
            r.channel_name == self.channel_name,
            r.filters@ == self.filters@.push(filter),
            r.analyzers@ == self.analyzers@,
    {
        let mut r = self;
        r.filters.push(filter);
        r
    }

    /// The replay with one more analyzer.
    pub fn with_analyzer(self, analyzer: StateAnalyzer) -> (r: ChannelReplay)
        ensures
            r.channel_name == self.channel_name,
            r.filters@ == self.filters@,
            r.analyzers@ == self.analyzers@.push(analyzer),
    {
        let mut r = self;
        r.analyzers.push(analyzer);
        r
    }
}

/// The texts of optional strings.
pub open spec fn opt_texts(s: Seq<Option<String>>) -> Seq<Option<Seq<char>>> {
    s.map_values(|t: Option<String>| opt_text(t))
}

/// A message passes every filter.
pub open spec fn passes_all(m: Message, filters: Seq<MessageFilter>, text: Option<Seq<char>>) -> bool {
    forall|f: int| 0 <= f < filters.len() ==> spec_matches(m, #[trigger] filters[f], text)
}

/// The positions of the first `n` messages that pass every filter, in
/// order; `texts` holds the JSON text of each message's data.
pub open spec fn kept_positions(ms: Seq<Message>, texts: Seq<Option<Seq<char>>>, filters: Seq<MessageFilter>, n: nat) -> Seq<int>
    decreases n,
{
    if n == 0 {
        Seq::empty()
    } else {
        let prev = kept_positions(ms, texts, filters, (n - 1) as nat);
        if passes_all(ms[n - 1], filters, texts[n - 1]) { prev.push(n - 1) } else { prev }
    }
}

/// The latest value under each name after a message: a message with a
/// name and data stores its data under its name.
pub open spec fn latest_value_step(state: Map<Seq<char>, JsonModel>, m: Message) -> Map<Seq<char>, JsonModel> {
    match (m.name, m.data) {
        (Some(n), Some(d)) => state.insert(n@, json_model(d)),
        _ => state,
    }
}

impl ChannelReplay {
    /// The messages that pass every filter, in order. `data_texts` holds
    /// the JSON text of each message's data, which the caller renders.
    pub fn apply_filters(&self, messages: &[Message], data_texts: &[Option<String>]) -> (r: Vec<Message>)
        requires
            data_texts@.len() == messages@.len(),
        ensures
            ({
                let k = kept_positions(messages@, opt_texts(data_texts@), self.filters@, messages@.len());
                &&& r@.len() == k.len()
                &&& forall|i: int| 0 <= i < k.len() ==> same_message(messages@[k[i]], #[trigger] r@[i])
            }),
    {
        let ghost texts = opt_texts(data_texts@);
        let mut out: Vec<Message> = Vec::new();
        let mut i: usize = 0;
        while i < messages.len()
            invariant
                0 <= i <= messages@.len(),
                data_texts@.len() == messages@.len(),
                texts == opt_texts(data_texts@),
                ({
                    let k = kept_positions(messages@, texts, self.filters@, i as nat);
                    &&& out@.len() == k.len()
                    &&& forall|j: int| 0 <= j < k.len() ==> same_message(messages@[k[j]], #[trigger] out@[j])
                }),
            decreases messages@.len() - i,
        {
            let text: Option<&str> = match &data_texts[i] {
                Some(t) => Some(t.as_str()),
                None => None,
            };
            let ghost tv = match text {
                Some(t) => Some(t@),
                None => None::<Seq<char>>,
            };
            assert(tv == texts[i as int]);
            let mut pass = true;
            let mut f: usize = 0;
            while f < self.filters.len()
                invariant
                    0 <= f <= self.filters@.len(),
                    0 <= i < messages@.len(),
                    tv == match text {
                        Some(t) => Some(t@),
                        None => None::<Seq<char>>,
                    },
                    pass == (forall|g: int| 0 <= g < f ==> spec_matches(messages@[i as int], #[trigger] self.filters@[g], tv)),
                decreases self.filters@.len() - f,
            {
                let ok = message_matches_filter(&messages[i], &self.filters[f], text);
                pass = pass && ok;
                f = f + 1;
            }
            let ghost prev = out@;
            if pass {
                let copy = messages[i].clone();
                out.push(copy);
                proof {
                    assert forall|j: int| 0 <= j < prev.len() + 1 implies same_message(
                        messages@[kept_positions(messages@, texts, self.filters@, (i + 1) as nat)[j]],
                        #[trigger] out@[j],
                    ) by {
                        if j < prev.len() {
                            assert(out@[j] == prev[j]);
                        }
                    }
                }
            }
            i = i + 1;
        }
        out
    }

    /// Stores the message's data under its name.
    pub fn process_message_for_state(&self, message: &Message, state: &mut StringMap<JsonValue>)
        ensures
            state_models(final(state)@) == latest_value_step(state_models(old(state)@), *message),
    {
        match (&message.name, &message.data) {
            (Some(name), Some(data)) => {
                let d = data.clone();
                let ghost before = state@;
                state.insert(name.clone(), d);
                assert(state_models(state@) =~= state_models(before).insert(name@, json_model(*data)));
            },
            _ => {},
        }
    }
}

/// A change of the value under a tracked name.
#[derive(Debug)]
pub struct ValueChange {
    pub timestamp: i64,
    pub old_value: Option<JsonValue>,
    pub new_value: JsonValue,
    pub client_id: Option<String>,
}

/// What a value change says.
pub struct ValueChangeView {
    pub timestamp: i64,
    pub old_value: Option<JsonModel>,
    pub new_value: JsonModel,
    pub client_id: Option<Seq<char>>,
}

impl View for ValueChange {
    type V = ValueChangeView;

    open spec fn view(&self) -> ValueChangeView {
        ValueChangeView {
            timestamp: self.timestamp,
            old_value: opt_model(self.old_value),
            new_value: json_model(self.new_value),
            client_id: opt_text(self.client_id),
        }
    }
}

/// Two updates of one name close together in time.
#[derive(Debug)]
pub struct StateConflict {
    pub key: String,
    pub timestamp: i64,
    pub conflicting_clients: Vec<String>,
    pub values: Vec<JsonValue>,
}

/// What a conflict says.
pub struct ConflictView {
    pub key: Seq<char>,
    pub timestamp: i64,
    pub clients: Seq<Seq<char>>,
    pub values: Seq<JsonModel>,
}

impl View for StateConflict {
    type V = ConflictView;

    open spec fn view(&self) -> ConflictView {
        ConflictView {
            key: self.key@,
            timestamp: self.timestamp,
            clients: self.conflicting_clients@.map_values(|c: String| c@),
            values: self.values@.map_values(|v: JsonValue| json_model(v)),
        }
    }
}

/// What the analysis of a channel's messages found.
#[derive(Debug)]
pub struct ChannelAnalysis {
    /// How many messages carry each name.
    pub message_counts: StringMap<usize>,
    /// The changes of each tracked name.
    pub value_timelines: StringMap<Vec<ValueChange>>,
    /// What each client did.
    pub client_activity: StringMap<ClientMetrics>,
    pub state_conflicts: Vec<StateConflict>,
    /// Health score, 0 to 100 and more with a bonus.
    pub health_score: u8,
}

/// The timestamp of a message, zero when it has none.
pub open spec fn stamp(m: Message) -> i64 {
    match m.timestamp {
        Some(t) => t,
        None => 0,
    }
}

/// The count under a name, zero when absent.
pub open spec fn count_of(c: Map<Seq<char>, usize>, n: Seq<char>) -> int {
    if c.contains_key(n) { c[n] as int } else { 0 }
}

/// Counting after one message: a named message adds one to its name.
pub open spec fn count_step(c: Map<Seq<char>, usize>, m: Message) -> Map<Seq<char>, usize> {
    match m.name {
        Some(n) => c.insert(n@, (count_of(c, n@) + 1) as usize),
        None => c,
    }
}

/// Counting after the messages, in order.
pub open spec fn counts_after(c: Map<Seq<char>, usize>, ms: Seq<Message>) -> Map<Seq<char>, usize>
    decreases ms.len(),
{
    if ms.len() == 0 {
        c
    } else {
        count_step(counts_after(c, ms.drop_last()), ms.last())
    }
}

/// Every count has room for `extra` more.
pub open spec fn counts_have_room(c: Map<Seq<char>, usize>, extra: nat) -> bool {
    forall|n: Seq<char>| c.contains_key(n) ==> #[trigger] c[n] + extra <= usize::MAX
}

proof fn lemma_counts_room(c: Map<Seq<char>, usize>, ms: Seq<Message>, extra: nat)
    requires
        counts_have_room(c, ms.len() + extra),
        ms.len() + extra <= usize::MAX,
    ensures
        counts_have_room(counts_after(c, ms), extra),
    decreases ms.len(),
{
    if ms.len() > 0 {
        lemma_counts_room(c, ms.drop_last(), extra + 1);
        let prev = counts_after(c, ms.drop_last());
        let next = counts_after(c, ms);
        assert forall|n: Seq<char>| next.contains_key(n) implies #[trigger] next[n] + extra <= usize::MAX by {
            if let Some(name) = ms.last().name {
                if n == name@ {
                    assert(count_of(prev, n) + 1 + extra <= usize::MAX);
                } else {
                    assert(prev.contains_key(n));
                }
            } else {
                assert(prev.contains_key(n));
            }
        }
    }
}

/// The metrics of a client after one message.
pub open spec fn activity_step(a: Map<Seq<char>, ClientMetrics>, m: Message, names: usize) -> Map<Seq<char>, ClientMetrics> {
    match m.client_id {
        Some(c) => {
            let t = stamp(m);
            let base = if a.contains_key(c@) {
                a[c@]
            } else {
                ClientMetrics { message_count: 0, first_seen: t, last_seen: t, unique_message_names: 0 }
            };
            a.insert(
                c@,
                ClientMetrics {
                    message_count: (base.message_count + 1) as usize,
                    first_seen: if t < base.first_seen { t } else { base.first_seen },
                    last_seen: if t > base.last_seen { t } else { base.last_seen },
                    unique_message_names: names,
                },
            )
        },
        None => a,
    }
}

/// The metrics of the clients after the messages, in order.
pub open spec fn activity_after(a: Map<Seq<char>, ClientMetrics>, ms: Seq<Message>, names: usize) -> Map<Seq<char>, ClientMetrics>
    decreases ms.len(),
{
    if ms.len() == 0 {
        a
    } else {
        activity_step(activity_after(a, ms.drop_last(), names), ms.last(), names)
    }
}

/// Every client's count has room for `extra` more.
pub open spec fn activity_has_room(a: Map<Seq<char>, ClientMetrics>, extra: nat) -> bool {
    forall|c: Seq<char>| a.contains_key(c) ==> #[trigger] a[c].message_count + extra <= usize::MAX
}

proof fn lemma_activity_room(a: Map<Seq<char>, ClientMetrics>, ms: Seq<Message>, names: usize, extra: nat)
    requires
        activity_has_room(a, ms.len() + extra),
        ms.len() + extra <= usize::MAX,
    ensures
        activity_has_room(activity_after(a, ms, names), extra),
    decreases ms.len(),
{
    if ms.len() > 0 {
        lemma_activity_room(a, ms.drop_last(), names, extra + 1);
        let prev = activity_after(a, ms.drop_last(), names);
        let next = activity_after(a, ms, names);
        assert forall|c: Seq<char>| next.contains_key(c) implies #[trigger] next[c].message_count + extra <= usize::MAX by {
            if let Some(id) = ms.last().client_id {
                if c == id@ {
                    if prev.contains_key(c) {
                        assert(prev[c].message_count + 1 + extra <= usize::MAX);
                    }
                } else {
                    assert(prev.contains_key(c));
                }
            } else {
                assert(prev.contains_key(c));
            }
        }
    }
}

/// The changes of one name, and its latest value.
pub struct TimelineModel {
    pub changes: Seq<ValueChangeView>,
    pub last: Option<JsonModel>,
}

/// The timeline of `key` after one message: a message of that name with
/// data records a change from the latest value.
pub open spec fn timeline_step(st: TimelineModel, m: Message, key: Seq<char>) -> TimelineModel {
    if opt_text(m.name) == Some(key) {
        match m.data {
            Some(d) => TimelineModel {
                changes: st.changes.push(
                    ValueChangeView {
                        timestamp: stamp(m),
                        old_value: st.last,
                        new_value: json_model(d),
                        client_id: opt_text(m.client_id),
                    },
                ),
                last: Some(json_model(d)),
            },
            None => st,
        }
    } else {
        st
    }
}

/// The timeline of `key` over the messages, in order.
pub open spec fn timeline_after(ms: Seq<Message>, key: Seq<char>) -> TimelineModel
    decreases ms.len(),
{
    if ms.len() == 0 {
        TimelineModel { changes: Seq::empty(), last: None }
    } else {
        timeline_step(timeline_after(ms.drop_last(), key), ms.last(), key)
    }
}

/// What the changes say.
pub open spec fn change_list(v: Seq<ValueChange>) -> Seq<ValueChangeView> {
    v.map_values(|c: ValueChange| c@)
}

/// What each name's timeline says.
pub open spec fn timeline_views(m: Map<Seq<char>, Vec<ValueChange>>) -> Map<Seq<char>, Seq<ValueChangeView>> {
    m.map_values(|v: Vec<ValueChange>| change_list(v@))
}

/// What the conflicts say.
pub open spec fn conflict_views(v: Seq<StateConflict>) -> Seq<ConflictView> {
    v.map_values(|c: StateConflict| c@)
}

impl ChannelReplay {
    /// Counts the messages of each name.
    pub fn analyze_message_counts(&self, messages: &[Message], analysis: &mut ChannelAnalysis)
        requires
            counts_have_room(old(analysis).message_counts@, messages@.len()),
        ensures
            final(analysis).message_counts@ == counts_after(old(analysis).message_counts@, messages@),
            final(analysis).value_timelines@ == old(analysis).value_timelines@,
            final(analysis).client_activity@ == old(analysis).client_activity@,
            final(analysis).client_activity.pairs() == old(analysis).client_activity.pairs(),
            final(analysis).state_conflicts@ == old(analysis).state_conflicts@,
            final(analysis).health_score == old(analysis).health_score,
    {
        let ghost start = analysis.message_counts@;
        let mut i: usize = 0;
        assert(messages@.take(0) =~= Seq::<Message>::empty());
        while i < messages.len()
            invariant
                0 <= i <= messages@.len(),
                counts_have_room(start, messages@.len()),
                analysis.message_counts@ == counts_after(start, messages@.take(i as int)),
                analysis.value_timelines@ == old(analysis).value_timelines@,
                analysis.client_activity@ == old(analysis).client_activity@,
                analysis.client_activity.pairs() == old(analysis).client_activity.pairs(),
                analysis.state_conflicts@ == old(analysis).state_conflicts@,
                analysis.health_score == old(analysis).health_score,
            decreases messages@.len() - i,
        {
            proof {
                assert(messages@.take(i + 1).drop_last() =~= messages@.take(i as int));
                assert(messages@.take(i + 1).last() == messages@[i as int]);
                assert(messages@.take(i as int).len() + (messages@.len() - i) == messages@.len());
                lemma_counts_room(start, messages@.take(i as int), (messages@.len() - i) as nat);
            }
            if let Some(name) = &messages[i].name {
                let c: usize = match analysis.message_counts.get(name.as_str()) {
                    Some(v) => *v,
                    None => 0,
                };
                analysis.message_counts.insert(name.clone(), c + 1);
            }
            i = i + 1;
        }
        assert(messages@.take(messages@.len() as int) =~= messages@);
    }

    /// Records what each client did: how many messages, when first and
    /// last seen, and the number of names counted so far.
    pub fn analyze_client_activity(&self, messages: &[Message], analysis: &mut ChannelAnalysis)
        requires
            activity_has_room(old(analysis).client_activity@, messages@.len()),
        ensures
            final(analysis).client_activity@ == activity_after(
                old(analysis).client_activity@,
                messages@,
                old(analysis).message_counts@.dom().len() as usize,
            ),
            final(analysis).message_counts@ == old(analysis).message_counts@,
            final(analysis).value_timelines@ == old(analysis).value_timelines@,
            final(analysis).state_conflicts@ == old(analysis).state_conflicts@,
            final(analysis).health_score == old(analysis).health_score,
    {
        let names = analysis.message_counts.len();
        let ghost start = analysis.client_activity@;
        let mut i: usize = 0;
        assert(messages@.take(0) =~= Seq::<Message>::empty());
        while i < messages.len()
            invariant
                0 <= i <= messages@.len(),
                names == old(analysis).message_counts@.dom().len(),
                activity_has_room(start, messages@.len()),
                analysis.client_activity@ == activity_after(start, messages@.take(i as int), names),
                analysis.message_counts@ == old(analysis).message_counts@,
                analysis.value_timelines@ == old(analysis).value_timelines@,
                analysis.state_conflicts@ == old(analysis).state_conflicts@,
                analysis.health_score == old(analysis).health_score,
            decreases messages@.len() - i,
        {
            proof {
                assert(messages@.take(i + 1).drop_last() =~= messages@.take(i as int));
                assert(messages@.take(i + 1).last() == messages@[i as int]);
                assert(messages@.take(i as int).len() + (messages@.len() - i) == messages@.len());
                lemma_activity_room(start, messages@.take(i as int), names, (messages@.len() - i) as nat);
            }
            let message = &messages[i];
            if let Some(client) = &message.client_id {
                let t: i64 = match message.timestamp {
                    Some(t) => t,
                    None => 0,
                };
                let base = match analysis.client_activity.get(client.as_str()) {
                    Some(m) => *m,
                    None => ClientMetrics { message_count: 0, first_seen: t, last_seen: t, unique_message_names: 0 },
                };
                let metrics = ClientMetrics {
                    message_count: base.message_count + 1,
                    first_seen: if t < base.first_seen { t } else { base.first_seen },
                    last_seen: if t > base.last_seen { t } else { base.last_seen },
                    unique_message_names: names,
                };
                analysis.client_activity.insert(client.clone(), metrics);
            }
            i = i + 1;
        }
        assert(messages@.take(messages@.len() as int) =~= messages@);
    }

    /// Records the changes of the value under `key`, when there are any.
    pub fn analyze_value_timeline(&self, messages: &[Message], key: &str, analysis: &mut ChannelAnalysis)
        ensures
            ({
                let tl = timeline_after(messages@, key@).changes;
                timeline_views(final(analysis).value_timelines@) == if tl.len() > 0 {
                    timeline_views(old(analysis).value_timelines@).insert(key@, tl)
                } else {
                    timeline_views(old(analysis).value_timelines@)
                }
            }),
            final(analysis).message_counts@ == old(analysis).message_counts@,
            final(analysis).client_activity@ == old(analysis).client_activity@,
            final(analysis).client_activity.pairs() == old(analysis).client_activity.pairs(),
            final(analysis).state_conflicts@ == old(analysis).state_conflicts@,
            final(analysis).health_score == old(analysis).health_score,
    {
        let wanted = crate::text::owned(key);
        let mut timeline: Vec<ValueChange> = Vec::new();
        let mut last: Option<JsonValue> = None;
        let mut i: usize = 0;
        assert(messages@.take(0) =~= Seq::<Message>::empty());
        assert(change_list(timeline@) =~= Seq::<ValueChangeView>::empty());
        while i < messages.len()
            invariant
                0 <= i <= messages@.len(),
                wanted@ == key@,
                ({
                    let m = timeline_after(messages@.take(i as int), key@);
                    &&& change_list(timeline@) == m.changes
                    &&& opt_model(last) == m.last
                }),
            decreases messages@.len() - i,
        {
            proof {
                assert(messages@.take(i + 1).drop_last() =~= messages@.take(i as int));
                assert(messages@.take(i + 1).last() == messages@[i as int]);
            }
            let message = &messages[i];
            let named = match &message.name {
                Some(n) => *n == wanted,
                None => false,
            };
            if named {
                if let Some(data) = &message.data {
                    let change = ValueChange {
                        timestamp: match message.timestamp {
                            Some(t) => t,
                            None => 0,
                        },
                        old_value: crate::protocol::messages::clone_opt_json(&last),
                        new_value: data.clone(),
                        client_id: crate::protocol::messages::clone_opt_string(&message.client_id),
                    };
                    let ghost before = timeline@;
                    timeline.push(change);
                    proof {
                        assert(change_list(before.push(change)) =~= change_list(before).push(change@));
                    }
                    last = Some(data.clone());
                }
            }
            i = i + 1;
        }
        assert(messages@.take(messages@.len() as int) =~= messages@);
        if timeline.len() > 0 {
            let ghost before = analysis.value_timelines@;
            analysis.value_timelines.insert(crate::text::owned(key), timeline);
            assert(timeline_views(analysis.value_timelines@) =~= timeline_views(before).insert(key@, change_list(timeline@)));
        }
    }
}

/// The names of the messages, each once, in the order they first appear.
pub open spec fn first_names(ms: Seq<Message>) -> Seq<Seq<char>>
    decreases ms.len(),
{
    if ms.len() == 0 {
        Seq::empty()
    } else {
        let prev = first_names(ms.drop_last());
        match ms.last().name {
            Some(n) => if prev.contains(n@) { prev } else { prev.push(n@) },
            None => prev,
        }
    }
}

/// The positions below `len` of the messages named `n`, in order.
pub open spec fn named_positions(ms: Seq<Message>, n: Seq<char>, len: nat) -> Seq<int>
    decreases len,
{
    if len == 0 {
        Seq::empty()
    } else {
        let prev = named_positions(ms, n, (len - 1) as nat);
        if opt_text(ms[len - 1].name) == Some(n) { prev.push(len - 1) } else { prev }
    }
}

/// The times of the messages at the positions.
pub open spec fn times_at(ms: Seq<Message>, g: Seq<int>) -> Seq<i64> {
    g.map_values(|i: int| stamp(ms[i]))
}

/// The positions ordered by the times of their messages, equal times in
/// their order.
pub open spec fn by_time(ms: Seq<Message>, g: Seq<int>) -> Seq<int> {
    order_by_time(times_at(ms, g), g.len()).map_values(|x: int| g[x])
}

/// The client of a message, empty when it has none.
pub open spec fn client_or_empty(m: Message) -> Seq<char> {
    match opt_text(m.client_id) {
        Some(c) => c,
        None => Seq::empty(),
    }
}

/// The data of a message, `null` when it has none.
pub open spec fn data_or_null(m: Message) -> JsonModel {
    match m.data {
        Some(d) => json_model(d),
        None => JsonModel::Null,
    }
}

/// The conflicts among the first `w` pairs of consecutive updates of `s`:
/// updates less than a second apart (the difference taken as an `i64`).
pub open spec fn window_conflicts(ms: Seq<Message>, key: Seq<char>, s: Seq<int>, w: nat) -> Seq<ConflictView>
    decreases w,
{
    if w == 0 {
        Seq::empty()
    } else {
        let prev = window_conflicts(ms, key, s, (w - 1) as nat);
        let a = ms[s[w - 1]];
        let b = ms[s[w as int]];
        if ((stamp(b) - stamp(a)) as i64) < 1000 {
            prev.push(
                ConflictView {
                    key,
                    timestamp: stamp(b),
                    clients: seq![client_or_empty(a), client_or_empty(b)],
                    values: seq![data_or_null(a), data_or_null(b)],
                },
            )
        } else {
            prev
        }
    }
}

/// The conflicts of the names, name after name: the updates of each name
/// ordered by time, and each pair of consecutive updates checked.
pub open spec fn name_conflicts(ms: Seq<Message>, names: Seq<Seq<char>>) -> Seq<ConflictView>
    decreases names.len(),
{
    if names.len() == 0 {
        Seq::empty()
    } else {
        let n = names.last();
        let s = by_time(ms, named_positions(ms, n, ms.len()));
        name_conflicts(ms, names.drop_last()) + if s.len() > 1 {
            window_conflicts(ms, n, s, (s.len() - 1) as nat)
        } else {
            Seq::<ConflictView>::empty()
        }
    }
}

/// The names of the messages in the order they first appear.
fn names_in_order(messages: &[Message]) -> (order: Vec<String>)
    ensures
        order@.map_values(|s: String| s@) == first_names(messages@),
{
    let mut order: Vec<String> = Vec::new();
    let mut seen: StringMap<bool> = StringMap::new();
    let mut i: usize = 0;
    assert(messages@.take(0) =~= Seq::<Message>::empty());
    assert(order@.map_values(|s: String| s@) =~= Seq::<Seq<char>>::empty());
    while i < messages.len()
        invariant
            0 <= i <= messages@.len(),
            order@.map_values(|s: String| s@) == first_names(messages@.take(i as int)),
            forall|k: Seq<char>| seen@.dom().contains(k) <==> first_names(messages@.take(i as int)).contains(k),
        decreases messages@.len() - i,
    {
        proof {
            assert(messages@.take(i + 1).drop_last() =~= messages@.take(i as int));
            assert(messages@.take(i + 1).last() == messages@[i as int]);
        }
        if let Some(n) = &messages[i].name {
            if !seen.contains_key(n.as_str()) {
                let ghost before = order@;
                let copy = n.clone();
                order.push(copy);
                seen.insert(n.clone(), true);
                proof {
                    assert(before.push(copy).map_values(|s: String| s@) =~= before.map_values(|s: String| s@).push(n@));
                    let prev = first_names(messages@.take(i as int));
                    assert forall|k: Seq<char>| prev.push(n@).contains(k) <==> (prev.contains(k) || k == n@) by {
                        if prev.push(n@).contains(k) {
                            let j = choose|j: int| 0 <= j < prev.len() + 1 && prev.push(n@)[j] == k;
                            if j < prev.len() {
                                assert(prev[j] == k);
                            }
                        }
                        if prev.contains(k) {
                            let j = choose|j: int| 0 <= j < prev.len() && prev[j] == k;
                            assert(prev.push(n@)[j] == k);
                        }
                        if k == n@ {
                            assert(prev.push(n@)[prev.len() as int] == k);
                        }
                    }
                }
            }
        }
        i = i + 1;
    }
    assert(messages@.take(messages@.len() as int) =~= messages@);
    order
}

/// The client of a message, empty when it has none.
fn client_text(m: &Message) -> (s: String)
    ensures
        s@ == client_or_empty(*m),
{
    match &m.client_id {
        Some(c) => c.clone(),
        None => String::new(),
    }
}

/// The data of a message, `null` when it has none.
fn data_value(m: &Message) -> (v: JsonValue)
    ensures
        json_model(v) == data_or_null(*m),
{
    match &m.data {
        Some(d) => d.clone(),
        None => JsonValue::Null,
    }
}

impl ChannelReplay {
    /// Records conflicts: for each name, in the order names first appear,
    /// its updates ordered by time, and each two consecutive updates less
    /// than a second apart.
    pub fn analyze_state_conflicts(&self, messages: &[Message], analysis: &mut ChannelAnalysis)
        ensures
            conflict_views(final(analysis).state_conflicts@) == conflict_views(old(analysis).state_conflicts@) + name_conflicts(
                messages@,
                first_names(messages@),
            ),
            final(analysis).message_counts@ == old(analysis).message_counts@,
            final(analysis).value_timelines@ == old(analysis).value_timelines@,
            final(analysis).client_activity@ == old(analysis).client_activity@,
            final(analysis).client_activity.pairs() == old(analysis).client_activity.pairs(),
            final(analysis).health_score == old(analysis).health_score,
    {
        let names = names_in_order(messages);
        let ghost ns = names@.map_values(|s: String| s@);
        let ghost start = conflict_views(analysis.state_conflicts@);
        let mut ni: usize = 0;
        assert(ns.take(0) =~= Seq::<Seq<char>>::empty());
        assert(start + name_conflicts(messages@, ns.take(0)) =~= start);
        while ni < names.len()
            invariant
                0 <= ni <= names@.len(),
                ns == names@.map_values(|s: String| s@),
                ns == first_names(messages@),
                conflict_views(analysis.state_conflicts@) == start + name_conflicts(messages@, ns.take(ni as int)),
                analysis.message_counts@ == old(analysis).message_counts@,
                analysis.value_timelines@ == old(analysis).value_timelines@,
                analysis.client_activity@ == old(analysis).client_activity@,
                analysis.client_activity.pairs() == old(analysis).client_activity.pairs(),
                analysis.health_score == old(analysis).health_score,
            decreases names@.len() - ni,
        {
            let name = &names[ni];
            let ghost n = name@;
            let mut group: Vec<usize> = Vec::new();
            let mut times: Vec<i64> = Vec::new();
            let mut i: usize = 0;
            while i < messages.len()
                invariant
                    0 <= i <= messages@.len(),
                    n == name@,
                    group@.len() == times@.len(),
                    group@.map_values(|x: usize| x as int) == named_positions(messages@, n, i as nat),
                    forall|j: int| 0 <= j < group@.len() ==> #[trigger] group@[j] < i,
                    times@ == times_at(messages@, named_positions(messages@, n, i as nat)),
                decreases messages@.len() - i,
            {
                let named = match &messages[i].name {
                    Some(x) => *x == *name,
                    None => false,
                };
                if named {
                    let ghost g0 = group@;
                    group.push(i);
                    times.push(
                        match messages[i].timestamp {
                            Some(t) => t,
                            None => 0,
                        },
                    );
                    proof {
                        assert(group@.map_values(|x: usize| x as int) =~= g0.map_values(|x: usize| x as int).push(i as int));
                        assert(times_at(messages@, named_positions(messages@, n, (i + 1) as nat))
                            =~= times_at(messages@, named_positions(messages@, n, i as nat)).push(stamp(messages@[i as int])));
                    }
                }
                i = i + 1;
            }
            let ghost g = named_positions(messages@, n, messages@.len());
            let order = time_order(times.as_slice());
            let ghost s = by_time(messages@, g);
            proof {
                assert(times@ == times_at(messages@, g));
                assert(g == group@.map_values(|x: usize| x as int));
                assert(g.len() == group@.len());
                let o = order_by_time(times@, times@.len());
                assert(s.len() == order@.len());
                assert forall|j: int| 0 <= j < s.len() implies #[trigger] s[j] == group@[order@[j] as int] as int by {
                    assert(order@[j] as int == o[j]);
                    assert(s[j] == g[o[j]]);
                    assert(g[o[j]] == group@[o[j]] as int);
                }
                assert(ns.take(ni + 1).drop_last() =~= ns.take(ni as int));
                assert(ns.take(ni + 1).last() == n);
            }
            let ghost base = conflict_views(analysis.state_conflicts@);
            if order.len() > 1 {
                let mut w: usize = 0;
                while w + 1 < order.len()
                    invariant
                        0 <= w < order@.len(),
                        order@.len() == s.len(),
                        order@.len() == group@.len(),
                        forall|j: int| 0 <= j < order@.len() ==> #[trigger] order@[j] < group@.len(),
                        forall|j: int| 0 <= j < group@.len() ==> #[trigger] group@[j] < messages@.len(),
                        forall|j: int| 0 <= j < s.len() ==> #[trigger] s[j] == group@[order@[j] as int] as int,
                        n == name@,
                        conflict_views(analysis.state_conflicts@) == base + window_conflicts(messages@, n, s, w as nat),
                        analysis.message_counts@ == old(analysis).message_counts@,
                        analysis.value_timelines@ == old(analysis).value_timelines@,
                        analysis.client_activity@ == old(analysis).client_activity@,
                        analysis.client_activity.pairs() == old(analysis).client_activity.pairs(),
                        analysis.health_score == old(analysis).health_score,
                    decreases order@.len() - w,
                {
                    let a = &messages[group[order[w]]];
                    let b = &messages[group[order[w + 1]]];
                    let ta: i64 = match a.timestamp {
                        Some(t) => t,
                        None => 0,
                    };
                    let tb: i64 = match b.timestamp {
                        Some(t) => t,
                        None => 0,
                    };
                    #[verifier::truncate]
                    let d = ((tb as i128) - (ta as i128)) as i64;
                    if d < 1000 {
                        let mut clients: Vec<String> = Vec::new();
                        clients.push(client_text(a));
                        clients.push(client_text(b));
                        let mut values: Vec<JsonValue> = Vec::new();
                        values.push(data_value(a));
                        values.push(data_value(b));
                        let conflict = StateConflict { key: name.clone(), timestamp: tb, conflicting_clients: clients, values };
                        let ghost before = analysis.state_conflicts@;
                        analysis.state_conflicts.push(conflict);
                        proof {
                            assert(conflict@.clients =~= seq![client_or_empty(*a), client_or_empty(*b)]);
                            assert(conflict@.values =~= seq![data_or_null(*a), data_or_null(*b)]);
                            assert(conflict_views(before.push(conflict)) =~= conflict_views(before).push(conflict@));
                        }
                    }
                    w = w + 1;
                }
            } else {
                assert(base + Seq::<ConflictView>::empty() =~= base);
            }
            proof {
                assert(s.len() > 1 ==> base + window_conflicts(messages@, n, s, (s.len() - 1) as nat) == conflict_views(analysis.state_conflicts@));
            }
            ni = ni + 1;
        }
        assert(ns.take(names@.len() as int) =~= ns);
    }
}

/// The largest message count of the clients among the entries.
pub open spec fn activity_max(pairs: Seq<(String, ClientMetrics)>) -> nat
    decreases pairs.len(),
{
    if pairs.len() == 0 {
        0
    } else {
        let m = activity_max(pairs.drop_last());
        let c = pairs.last().1.message_count as nat;
        if c > m { c } else { m }
    }
}

/// The sum of the message counts of the clients among the entries.
pub open spec fn activity_total(pairs: Seq<(String, ClientMetrics)>) -> nat
    decreases pairs.len(),
{
    if pairs.len() == 0 {
        0
    } else {
        activity_total(pairs.drop_last()) + pairs.last().1.message_count as nat
    }
}

/// The health of a channel: 100, less ten per conflict (the product
/// taken as a `u8`), less 20 when one client sent more than half the
/// messages, never below zero; plus 5 when more than one client is active.
pub open spec fn channel_health(a: ChannelAnalysis) -> nat {
    let pen = ((a.state_conflicts@.len() * 10) % 256) as nat;
    let s1: nat = if 100 >= pen { (100 - pen) as nat } else { 0 };
    let pairs = a.client_activity.pairs();
    let s2: nat = if pairs.len() > 0 && activity_max(pairs) > activity_total(pairs) / 2 {
        if s1 >= 20 { (s1 - 20) as nat } else { 0 }
    } else {
        s1
    };
    if pairs.len() > 1 { s2 + 5 } else { s2 }
}

/// What the configured analyzers add: the timelines and the conflicts.
pub struct AnalyzersModel {
    pub timelines: Map<Seq<char>, Seq<ValueChangeView>>,
    pub conflicts: Seq<ConflictView>,
}

/// What the analyzers add, one after the other, to `st`.
pub open spec fn analyzers_after(ms: Seq<Message>, analyzers: Seq<StateAnalyzer>, st: AnalyzersModel) -> AnalyzersModel
    decreases analyzers.len(),
{
    if analyzers.len() == 0 {
        st
    } else {
        let prev = analyzers_after(ms, analyzers.drop_last(), st);
        match analyzers.last() {
            StateAnalyzer::ValueTimeline(key) => {
                let tl = timeline_after(ms, key@).changes;
                if tl.len() > 0 { AnalyzersModel { timelines: prev.timelines.insert(key@, tl), ..prev } } else { prev }
            },
            StateAnalyzer::StateConflicts => AnalyzersModel {
                conflicts: prev.conflicts + name_conflicts(ms, first_names(ms)),
                ..prev
            },
            _ => prev,
        }
    }
}

impl ChannelReplay {
    /// The health score of an analysis.
    pub fn calculate_health_score(&self, analysis: &ChannelAnalysis) -> (score: u8)
        ensures
            score == channel_health(*analysis),
    {
        let mut score: u8 = 100;
        #[verifier::truncate]
        let penalty = (((analysis.state_conflicts.len() as u128) * 10) % 256) as u8;
        score = score.saturating_sub(penalty);
        let n = analysis.client_activity.len();
        let ghost pairs = analysis.client_activity.pairs();
        let mut max: usize = 0;
        let mut total: u128 = 0;
        let mut k: usize = 0;
        assert(pairs.take(0) =~= Seq::<(String, ClientMetrics)>::empty());
        while k < n
            invariant
                n == pairs.len(),
                pairs == analysis.client_activity.pairs(),
                0 <= k <= n,
                max == activity_max(pairs.take(k as int)),
                total == activity_total(pairs.take(k as int)),
                total <= k * usize::MAX,
            decreases n - k,
        {
            proof {
                assert(pairs.take(k + 1).drop_last() =~= pairs.take(k as int));
                assert(pairs.take(k + 1).last() == pairs[k as int]);
                assert(k * usize::MAX + usize::MAX == (k + 1) * usize::MAX) by (nonlinear_arith);
                assert((k + 1) * usize::MAX <= usize::MAX * usize::MAX) by (nonlinear_arith)
                    requires
                        k + 1 <= usize::MAX,
                ;
                assert(usize::MAX * usize::MAX < u128::MAX) by (nonlinear_arith)
                    requires
                        usize::MAX <= u64::MAX,
                ;
            }
            let c = analysis.client_activity.value_at(k).message_count;
            if c > max {
                max = c;
            }
            total = total + c as u128;
            k = k + 1;
        }
        assert(pairs.take(n as int) =~= pairs);
        if n > 0 && (max as u128) > total / 2 {
            score = score.saturating_sub(20);
        }
        if n > 1 {
            score = score.saturating_add(5);
        }
        score
    }

    /// Runs the analysis of messages: counts by name and client activity
    /// always, then the configured analyzers in order, then the health
    /// score.
    pub fn run_analysis(&self, messages: &[Message]) -> (a: ChannelAnalysis)
        ensures
            ({
                let counts = counts_after(Map::empty(), messages@);
                let added = analyzers_after(
                    messages@,
                    self.analyzers@,
                    AnalyzersModel { timelines: Map::empty(), conflicts: Seq::empty() },
                );
                &&& a.message_counts@ == counts
                &&& a.client_activity@ == activity_after(Map::empty(), messages@, counts.dom().len() as usize)
                &&& timeline_views(a.value_timelines@) == added.timelines
                &&& conflict_views(a.state_conflicts@) == added.conflicts
                &&& a.health_score == channel_health(a)
            }),
    {
        let mut analysis = ChannelAnalysis {
            message_counts: StringMap::new(),
            value_timelines: StringMap::new(),
            client_activity: StringMap::new(),
            state_conflicts: Vec::new(),
            health_score: 100,
        };
        let ghost start = AnalyzersModel { timelines: Map::empty(), conflicts: Seq::empty() };
        proof {
            assert(timeline_views(analysis.value_timelines@) =~= Map::<Seq<char>, Seq<ValueChangeView>>::empty());
            assert(conflict_views(analysis.state_conflicts@) =~= Seq::<ConflictView>::empty());
        }
        self.analyze_message_counts(messages, &mut analysis);
        self.analyze_client_activity(messages, &mut analysis);
        let mut i: usize = 0;
        assert(self.analyzers@.take(0) =~= Seq::<StateAnalyzer>::empty());
        while i < self.analyzers.len()
            invariant
                0 <= i <= self.analyzers@.len(),
                analysis.message_counts@ == counts_after(Map::empty(), messages@),
                analysis.client_activity@ == activity_after(
                    Map::empty(),
                    messages@,
                    counts_after(Map::empty(), messages@).dom().len() as usize,
                ),
                ({
                    let added = analyzers_after(messages@, self.analyzers@.take(i as int), start);
                    &&& timeline_views(analysis.value_timelines@) == added.timelines
                    &&& conflict_views(analysis.state_conflicts@) == added.conflicts
                }),
            decreases self.analyzers@.len() - i,
        {
            proof {
                assert(self.analyzers@.take(i + 1).drop_last() =~= self.analyzers@.take(i as int));
                assert(self.analyzers@.take(i + 1).last() == self.analyzers@[i as int]);
            }
            match &self.analyzers[i] {
                StateAnalyzer::ValueTimeline(key) => {
                    self.analyze_value_timeline(messages, key.as_str(), &mut analysis);
                },
                StateAnalyzer::StateConflicts => {
                    self.analyze_state_conflicts(messages, &mut analysis);
                },
                _ => {},
            }
            i = i + 1;
        }
        assert(self.analyzers@.take(self.analyzers@.len() as int) =~= self.analyzers@);
        let score = self.calculate_health_score(&analysis);
        analysis.health_score = score;
        analysis
    }
}

/// The latest value under each name after the messages, in order.
pub open spec fn latest_values_after(state: Map<Seq<char>, JsonModel>, ms: Seq<Message>) -> Map<Seq<char>, JsonModel>
    decreases ms.len(),
{
    if ms.len() == 0 {
        state
    } else {
        latest_value_step(latest_values_after(state, ms.drop_last()), ms.last())
    }
}

/// The positions of the kept messages, ordered by time.
pub open spec fn prepared_positions(ms: Seq<Message>, texts: Seq<Option<Seq<char>>>, filters: Seq<MessageFilter>) -> Seq<int> {
    let k = kept_positions(ms, texts, filters, ms.len());
    by_time(ms, k)
}

impl ChannelReplay {
    /// The positions of the messages that pass every filter.
    fn filter_positions(&self, messages: &[Message], data_texts: &[Option<String>]) -> (r: Vec<usize>)
        requires
            data_texts@.len() == messages@.len(),
        ensures
            r@.map_values(|x: usize| x as int) == kept_positions(messages@, opt_texts(data_texts@), self.filters@, messages@.len()),
            forall|j: int| 0 <= j < r@.len() ==> #[trigger] r@[j] < messages@.len(),
    {
        let ghost texts = opt_texts(data_texts@);
        let mut out: Vec<usize> = Vec::new();
        let mut i: usize = 0;
        while i < messages.len()
            invariant
                0 <= i <= messages@.len(),
                data_texts@.len() == messages@.len(),
                texts == opt_texts(data_texts@),
                out@.map_values(|x: usize| x as int) == kept_positions(messages@, texts, self.filters@, i as nat),
                forall|j: int| 0 <= j < out@.len() ==> #[trigger] out@[j] < i,
            decreases messages@.len() - i,
        {
            let text: Option<&str> = match &data_texts[i] {
                Some(t) => Some(t.as_str()),
                None => None,
            };
            let ghost tv = match text {
                Some(t) => Some(t@),
                None => None::<Seq<char>>,
            };
            assert(tv == texts[i as int]);
            let mut pass = true;
            let mut f: usize = 0;
            while f < self.filters.len()
                invariant
                    0 <= f <= self.filters@.len(),
                    0 <= i < messages@.len(),
                    tv == match text {
                        Some(t) => Some(t@),
                        None => None::<Seq<char>>,
                    },
                    pass == (forall|g: int| 0 <= g < f ==> spec_matches(messages@[i as int], #[trigger] self.filters@[g], tv)),
                decreases self.filters@.len() - f,
            {
                let ok = message_matches_filter(&messages[i], &self.filters[f], text);
                pass = pass && ok;
                f = f + 1;
            }
            if pass {
                let ghost before = out@;
                out.push(i);
                assert(out@.map_values(|x: usize| x as int) =~= before.map_values(|x: usize| x as int).push(i as int));
            }
            i = i + 1;
        }
        out
    }

    /// Copies of the messages that pass every filter, ordered by time,
    /// equal times in their order. `data_texts` holds the JSON text of each
    /// message's data, which the caller renders.
    pub fn prepare(&self, messages: &[Message], data_texts: &[Option<String>]) -> (r: Vec<Message>)
        requires
            data_texts@.len() == messages@.len(),
        ensures
            ({
                let p = prepared_positions(messages@, opt_texts(data_texts@), self.filters@);
                &&& r@.len() == p.len()
                &&& forall|j: int| 0 <= j < p.len() ==> same_message(messages@[p[j]], #[trigger] r@[j])
            }),
    {
        let kept = self.filter_positions(messages, data_texts);
        let ghost k = kept_positions(messages@, opt_texts(data_texts@), self.filters@, messages@.len());
        let mut times: Vec<i64> = Vec::new();
        let mut i: usize = 0;
        while i < kept.len()
            invariant
                0 <= i <= kept@.len(),
                kept@.map_values(|x: usize| x as int) == k,
                forall|j: int| 0 <= j < kept@.len() ==> #[trigger] kept@[j] < messages@.len(),
                times@ == times_at(messages@, k).take(i as int),
            decreases kept@.len() - i,
        {
            times.push(
                match messages[kept[i]].timestamp {
                    Some(t) => t,
                    None => 0,
                },
            );
            proof {
                assert(k[i as int] == kept@[i as int] as int);
                assert(times@ =~= times_at(messages@, k).take(i + 1));
            }
            i = i + 1;
        }
        assert(times@ =~= times_at(messages@, k));
        let order = time_order(times.as_slice());
        let ghost p = by_time(messages@, k);
        let mut r: Vec<Message> = Vec::new();
        let mut j: usize = 0;
        while j < order.len()
            invariant
                0 <= j <= order@.len(),
                order@.len() == kept@.len(),
                kept@.map_values(|x: usize| x as int) == k,
                forall|q: int| 0 <= q < kept@.len() ==> #[trigger] kept@[q] < messages@.len(),
                forall|q: int| 0 <= q < order@.len() ==> #[trigger] order@[q] < kept@.len(),
                forall|q: int| 0 <= q < order@.len() ==> #[trigger] order@[q] as int == order_by_time(times@, times@.len())[q],
                order_by_time(times@, times@.len()).len() == times@.len(),
                times@ == times_at(messages@, k),
                p == by_time(messages@, k),
                r@.len() == j,
                forall|q: int| 0 <= q < j ==> same_message(messages@[p[q]], #[trigger] r@[q]),
            decreases order@.len() - j,
        {
            let copy = messages[kept[order[j]]].clone();
            let ghost before = r@;
            r.push(copy);
            proof {
                assert(p[j as int] == k[order@[j as int] as int]);
                assert(k[order@[j as int] as int] == kept@[order@[j as int] as int] as int);
                assert forall|q: int| 0 <= q < j + 1 implies same_message(messages@[p[q]], #[trigger] r@[q]) by {
                    if q < j {
                        assert(r@[q] == before[q]);
                    }
                }
            }
            j = j + 1;
        }
        r
    }

    /// The replay of prepared messages: the latest value under each name,
    /// and the analysis of the messages.
    pub fn analyze_prepared(&self, sorted: &[Message]) -> (r: (ReplayResult, ChannelAnalysis))
        ensures
            r.0.messages_processed == sorted@.len(),
            r.0.presence_processed == 0,
            state_models(r.0.final_state@) == latest_values_after(Map::empty(), sorted@),
            r.0.presence_state@ == Map::<Seq<char>, crate::protocol::messages::PresenceMessage>::empty(),
            r.0.duration_ms == 0,
            r.0.warnings@.len() == 0,
            r.0.success,
            ({
                let a = r.1;
                let counts = counts_after(Map::empty(), sorted@);
                let added = analyzers_after(
                    sorted@,
                    self.analyzers@,
                    AnalyzersModel { timelines: Map::empty(), conflicts: Seq::empty() },
                );
                &&& a.message_counts@ == counts
                &&& a.client_activity@ == activity_after(Map::empty(), sorted@, counts.dom().len() as usize)
                &&& timeline_views(a.value_timelines@) == added.timelines
                &&& conflict_views(a.state_conflicts@) == added.conflicts
                &&& a.health_score == channel_health(a)
            }),
    {
        let mut state: StringMap<JsonValue> = StringMap::new();
        assert(state_models(state@) =~= Map::<Seq<char>, JsonModel>::empty());
        let mut i: usize = 0;
        assert(sorted@.take(0) =~= Seq::<Message>::empty());
        while i < sorted.len()
            invariant
                0 <= i <= sorted@.len(),
                state_models(state@) == latest_values_after(Map::empty(), sorted@.take(i as int)),
            decreases sorted@.len() - i,
        {
            proof {
                assert(sorted@.take(i + 1).drop_last() =~= sorted@.take(i as int));
                assert(sorted@.take(i + 1).last() == sorted@[i as int]);
            }
            self.process_message_for_state(&sorted[i], &mut state);
            i = i + 1;
        }
        assert(sorted@.take(sorted@.len() as int) =~= sorted@);
        let result = ReplayResult {
            messages_processed: sorted.len(),
            presence_processed: 0,
            final_state: state,
            presence_state: StringMap::new(),
            duration_ms: 0,
            warnings: Vec::new(),
            success: true,
        };
        let analysis = self.run_analysis(sorted);
        (result, analysis)
    }
}

} // verus!
