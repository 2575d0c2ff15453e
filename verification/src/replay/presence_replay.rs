//! Replay of presence history: its options and the patterns, anomalies
//! and concurrency it reports.

use crate::protocol::json::{JsonModel, JsonValue};
use crate::protocol::messages::{clone_opt_json, opt_model, opt_text, PresenceAction, PresenceMessage, PresenceView};
use crate::replay::presence_views;
use crate::strmap::{keys_distinct, lemma_map_of_value, map_of, StringMap};
use crate::text::{append, decimal, owned, u64_to_string};
use vstd::prelude::*;

verus! {

/// What a presence replay analyses.
#[derive(Debug, Clone, Copy, PartialEq, Eq, Structural)]
pub struct PresenceReplayOptions {
    pub track_patterns: bool,
    pub analyze_sessions: bool,
    pub detect_anomalies: bool,
    pub track_peaks: bool,
}

impl Default for PresenceReplayOptions {
    fn default() -> (o: PresenceReplayOptions)
        ensures
            o == (PresenceReplayOptions {
                track_patterns: true,
                analyze_sessions: true,
                detect_anomalies: false,
                track_peaks: true,
            }),
    {
        PresenceReplayOptions { track_patterns: true, analyze_sessions: true, detect_anomalies: false, track_peaks: true }
    }
}

/// Patterns of presence.
#[derive(Debug, Clone)]
pub struct PresencePatterns {
    pub avg_session_duration_ms: u64,
    /// Most active hours of the day (0 to 23).
    pub peak_hours: Vec<u8>,
    pub longest_session_client: Option<String>,
    pub most_active_client: Option<String>,
    pub common_patterns: Vec<String>,
}

/// What patterns say.
pub struct PatternsView {
    pub avg_session_duration_ms: u64,
    pub peak_hours: Seq<u8>,
    pub longest_session_client: Option<Seq<char>>,
    pub most_active_client: Option<Seq<char>>,
    pub common_patterns: Seq<Seq<char>>,
}

impl View for PresencePatterns {
    type V = PatternsView;

    open spec fn view(&self) -> PatternsView {
        PatternsView {
            avg_session_duration_ms: self.avg_session_duration_ms,
            peak_hours: self.peak_hours@,
            longest_session_client: opt_text(self.longest_session_client),
            most_active_client: opt_text(self.most_active_client),
            common_patterns: self.common_patterns@.map_values(|s: String| s@),
        }
    }
}

/// Kinds of presence anomalies.
#[derive(Debug, Clone, Copy, PartialEq, Eq, Structural)]
pub enum AnomalyType {
    DuplicateEnter,
    OrphanedLeave,
    ExcessiveSession,
    FlappingPresence,
    TimingAnomaly,
}

/// Severity of an anomaly.
#[derive(Debug, Clone, Copy, PartialEq, Eq, Structural)]
pub enum AnomolySeverity {
    Low,
    Medium,
    High,
    Critical,
}

/// An anomaly found in presence history.
#[derive(Debug, Clone)]
pub struct PresenceAnomaly {
    pub anomaly_type: AnomalyType,
    pub client_id: String,
    pub timestamp: i64,
    pub description: String,
    pub severity: AnomolySeverity,
}

/// How many clients were present at a time.
#[derive(Debug, Clone, Copy, PartialEq, Eq, Structural)]
pub struct ConcurrencyPoint {
    pub timestamp: i64,
    pub concurrent_count: usize,
}

/// A presence replay: the channel and what is analysed. The presence
/// history it works on is fetched by the caller.
#[derive(Debug, Clone)]
pub struct PresenceReplay {
    pub channel_name: String,
    pub options: PresenceReplayOptions,
}

impl PresenceReplay {
    /// A replay of `channel_name` with the default options.
    pub fn new(channel_name: String) -> (r: PresenceReplay)
        ensures
            r.channel_name == channel_name,
            r.options == (PresenceReplayOptions {
                track_patterns: true,
                analyze_sessions: true,
                detect_anomalies: false,
                track_peaks: true,
            }),
    {
        PresenceReplay { channel_name, options: PresenceReplayOptions::default() }
    }

    /// A replay of `channel_name` with the options given.
    pub fn with_options(channel_name: String, options: PresenceReplayOptions) -> (r: PresenceReplay)
        ensures
            r.channel_name == channel_name,
            r.options == options,
    {
        PresenceReplay { channel_name, options }
    }
}

/// A change of a member's data within a session.
#[derive(Debug)]
pub struct DataChange {
    pub timestamp: i64,
    pub old_data: Option<JsonValue>,
    pub new_data: Option<JsonValue>,
}

/// What a data change says.
pub struct ChangeView {
    pub timestamp: i64,
    pub old_data: Option<JsonModel>,
    pub new_data: Option<JsonModel>,
}

impl View for DataChange {
    type V = ChangeView;

    open spec fn view(&self) -> ChangeView {
        ChangeView { timestamp: self.timestamp, old_data: opt_model(self.old_data), new_data: opt_model(self.new_data) }
    }
}

/// One stay of a client in presence, from entering to leaving.
#[derive(Debug)]
pub struct PresenceSession {
    pub client_id: String,
    pub enter_time: i64,
    pub leave_time: Option<i64>,
    pub duration_ms: Option<u64>,
    pub data_changes: Vec<DataChange>,
    pub is_complete: bool,
}

/// What a session says.
pub struct SessionView {
    pub client_id: Seq<char>,
    pub enter_time: i64,
    pub leave_time: Option<i64>,
    pub duration_ms: Option<u64>,
    pub data_changes: Seq<ChangeView>,
    pub is_complete: bool,
}

/// What data changes say.
pub open spec fn change_views(cs: Seq<DataChange>) -> Seq<ChangeView> {
    cs.map_values(|c: DataChange| c@)
}

impl View for PresenceSession {
    type V = SessionView;

    open spec fn view(&self) -> SessionView {
        SessionView {
            client_id: self.client_id@,
            enter_time: self.enter_time,
            leave_time: self.leave_time,
            duration_ms: self.duration_ms,
            data_changes: change_views(self.data_changes@),
            is_complete: self.is_complete,
        }
    }
}

/// What an anomaly says.
pub struct AnomalyView {
    pub anomaly_type: AnomalyType,
    pub client_id: Seq<char>,
    pub timestamp: i64,
    pub description: Seq<char>,
    pub severity: AnomolySeverity,
}

impl View for PresenceAnomaly {
    type V = AnomalyView;

    open spec fn view(&self) -> AnomalyView {
        AnomalyView {
            anomaly_type: self.anomaly_type,
            client_id: self.client_id@,
            timestamp: self.timestamp,
            description: self.description@,
            severity: self.severity,
        }
    }
}

/// What anomalies say.
pub open spec fn anomaly_views(s: Seq<PresenceAnomaly>) -> Seq<AnomalyView> {
    s.map_values(|a: PresenceAnomaly| a@)
}

/// What sessions say.
pub open spec fn session_views(s: Seq<PresenceSession>) -> Seq<SessionView> {
    s.map_values(|x: PresenceSession| x@)
}

/// What each client's sessions say.
pub open spec fn session_lists(m: Map<Seq<char>, Vec<PresenceSession>>) -> Map<Seq<char>, Seq<SessionView>> {
    m.map_values(|v: Vec<PresenceSession>| session_views(v@))
}

/// What each client's open session says.
pub open spec fn open_sessions(m: Map<Seq<char>, PresenceSession>) -> Map<Seq<char>, SessionView> {
    m.map_values(|s: PresenceSession| s@)
}

/// The state of session building: open sessions, present members, the
/// sessions of each client so far, and the anomalies found.
pub struct SessionsModel {
    pub active: Map<Seq<char>, SessionView>,
    pub current: Map<Seq<char>, PresenceView>,
    pub sessions: Map<Seq<char>, Seq<SessionView>>,
    pub anomalies: Seq<AnomalyView>,
}

/// The anomaly of a client entering while present.
pub open spec fn duplicate_enter(c: Seq<char>, t: i64) -> AnomalyView {
    AnomalyView {
        anomaly_type: AnomalyType::DuplicateEnter,
        client_id: c,
        timestamp: t,
        description: "Client entered while already present"@,
        severity: AnomolySeverity::Medium,
    }
}

/// The anomaly of a client leaving without having entered.
pub open spec fn orphaned_leave(c: Seq<char>, t: i64) -> AnomalyView {
    AnomalyView {
        anomaly_type: AnomalyType::OrphanedLeave,
        client_id: c,
        timestamp: t,
        description: "Client left without entering"@,
        severity: AnomolySeverity::Medium,
    }
}

/// A session that a client opens at `t`.
pub open spec fn opened_session(c: Seq<char>, t: i64) -> SessionView {
    SessionView { client_id: c, enter_time: t, leave_time: None, duration_ms: None, data_changes: Seq::empty(), is_complete: false }
}

/// A session closed at `t`: its duration is the time since entering, as
/// an unsigned number of milliseconds.
pub open spec fn closed_session(s: SessionView, t: i64) -> SessionView {
    SessionView { leave_time: Some(t), duration_ms: Some((t - s.enter_time) as u64), is_complete: true, ..s }
}

/// `sessions` with `s` added to the end of `c`'s sessions.
pub open spec fn add_session(sessions: Map<Seq<char>, Seq<SessionView>>, c: Seq<char>, s: SessionView) -> Map<Seq<char>, Seq<SessionView>> {
    sessions.insert(c, (if sessions.contains_key(c) { sessions[c] } else { Seq::empty() }).push(s))
}

/// The timestamp of a presence message, zero when it has none.
pub open spec fn time_or_zero(t: Option<i64>) -> i64 {
    match t {
        Some(t) => t,
        None => 0,
    }
}

/// Session building after one presence message. Entering opens a session
/// (an anomaly when one is open and anomalies are detected); updating adds
/// a data change to the open session, if any; leaving closes the open
/// session, or is an anomaly when there is none. The member's message
/// becomes the present one, or leaves with the member.
pub open spec fn sessions_step(st: SessionsModel, p: PresenceView, detect: bool) -> SessionsModel {
    match p.client_id {
        None => st,
        Some(c) => {
            let t = time_or_zero(p.timestamp);
            match p.action {
                PresenceAction::Enter => SessionsModel {
                    active: st.active.insert(c, opened_session(c, t)),
                    current: st.current.insert(c, p),
                    sessions: st.sessions,
                    anomalies: if st.active.contains_key(c) && detect {
                        st.anomalies.push(duplicate_enter(c, t))
                    } else {
                        st.anomalies
                    },
                },
                PresenceAction::Update => SessionsModel {
                    active: if st.active.contains_key(c) {
                        st.active.insert(
                            c,
                            SessionView {
                                data_changes: st.active[c].data_changes.push(
                                    ChangeView {
                                        timestamp: t,
                                        old_data: if st.current.contains_key(c) { st.current[c].data } else { None },
                                        new_data: p.data,
                                    },
                                ),
                                ..st.active[c]
                            },
                        )
                    } else {
                        st.active
                    },
                    current: st.current.insert(c, p),
                    sessions: st.sessions,
                    anomalies: st.anomalies,
                },
                PresenceAction::Leave => if st.active.contains_key(c) {
                    SessionsModel {
                        active: st.active.remove(c),
                        current: st.current.remove(c),
                        sessions: add_session(st.sessions, c, closed_session(st.active[c], t)),
                        anomalies: st.anomalies,
                    }
                } else {
                    SessionsModel {
                        active: st.active,
                        current: st.current.remove(c),
                        sessions: st.sessions,
                        anomalies: if detect { st.anomalies.push(orphaned_leave(c, t)) } else { st.anomalies },
                    }
                },
                _ => st,
            }
        },
    }
}

/// Session building after the messages, in order.
pub open spec fn sessions_after(st: SessionsModel, ps: Seq<PresenceView>, detect: bool) -> SessionsModel
    decreases ps.len(),
{
    if ps.len() == 0 {
        st
    } else {
        sessions_step(sessions_after(st, ps.drop_last(), detect), ps.last(), detect)
    }
}

/// Each client's sessions with its open session, if any, added last.
pub open spec fn close_sessions(sessions: Map<Seq<char>, Seq<SessionView>>, active: Map<Seq<char>, SessionView>) -> Map<Seq<char>, Seq<SessionView>> {
    Map::new(
        |k: Seq<char>| sessions.contains_key(k) || active.contains_key(k),
        |k: Seq<char>|
            (if sessions.contains_key(k) { sessions[k] } else { Seq::empty() }) + (if active.contains_key(k) {
                seq![active[k]]
            } else {
                Seq::empty()
            }),
    )
}

/// What presence messages say.
pub open spec fn message_views(ps: Seq<PresenceMessage>) -> Seq<PresenceView> {
    ps.map_values(|p: PresenceMessage| p@)
}

/// The outcome of an analysis of presence history.
#[derive(Debug)]
pub struct PresenceAnalysis {
    /// The members present at the end.
    pub current_presence: StringMap<PresenceMessage>,
    /// Each client's sessions.
    pub client_sessions: StringMap<Vec<PresenceSession>>,
    pub patterns: PresencePatterns,
    pub anomalies: Vec<PresenceAnomaly>,
    pub peak_metrics: PeakMetrics,
    /// Health score, 0 to 100 and more with bonuses, at most 255.
    pub health_score: u8,
}

/// Peaks of concurrent presence. The average concurrency is
/// `total_concurrent / sample_count`.
#[derive(Debug)]
pub struct PeakMetrics {
    pub max_concurrent: usize,
    pub peak_timestamp: i64,
    /// The sum over all messages of the concurrency after each.
    pub total_concurrent: u64,
    /// How many messages were counted.
    pub sample_count: u64,
    pub concurrency_timeline: Vec<ConcurrencyPoint>,
}

/// Session building from the analysis as it stands.
pub open spec fn starting_model(a: PresenceAnalysis) -> SessionsModel {
    SessionsModel {
        active: Map::empty(),
        current: presence_views(a.current_presence@),
        sessions: session_lists(a.client_sessions@),
        anomalies: anomaly_views(a.anomalies@),
    }
}

proof fn lemma_open_insert(m: Map<Seq<char>, PresenceSession>, k: Seq<char>, s: PresenceSession)
    ensures
        open_sessions(m.insert(k, s)) == open_sessions(m).insert(k, s@),
{
    assert(open_sessions(m.insert(k, s)) =~= open_sessions(m).insert(k, s@));
}

proof fn lemma_open_remove(m: Map<Seq<char>, PresenceSession>, k: Seq<char>)
    ensures
        open_sessions(m.remove(k)) == open_sessions(m).remove(k),
{
    assert(open_sessions(m.remove(k)) =~= open_sessions(m).remove(k));
}

proof fn lemma_lists_insert(m: Map<Seq<char>, Vec<PresenceSession>>, k: Seq<char>, v: Vec<PresenceSession>)
    ensures
        session_lists(m.insert(k, v)) == session_lists(m).insert(k, session_views(v@)),
{
    assert(session_lists(m.insert(k, v)) =~= session_lists(m).insert(k, session_views(v@)));
}

proof fn lemma_lists_remove(m: Map<Seq<char>, Vec<PresenceSession>>, k: Seq<char>)
    ensures
        session_lists(m.remove(k)) == session_lists(m).remove(k),
{
    assert(session_lists(m.remove(k)) =~= session_lists(m).remove(k));
}

proof fn lemma_presence_insert(m: Map<Seq<char>, PresenceMessage>, k: Seq<char>, p: PresenceMessage)
    ensures
        presence_views(m.insert(k, p)) == presence_views(m).insert(k, p@),
{
    assert(presence_views(m.insert(k, p)) =~= presence_views(m).insert(k, p@));
}

proof fn lemma_presence_remove(m: Map<Seq<char>, PresenceMessage>, k: Seq<char>)
    ensures
        presence_views(m.remove(k)) == presence_views(m).remove(k),
{
    assert(presence_views(m.remove(k)) =~= presence_views(m).remove(k));
}

/// An anomaly as the library records it.
fn anomaly(anomaly_type: AnomalyType, client_id: String, timestamp: i64, description: &str) -> (a: PresenceAnomaly)
    ensures
        a@ == (AnomalyView {
            anomaly_type,
            client_id: client_id@,
            timestamp,
            description: description@,
            severity: AnomolySeverity::Medium,
        }),
{
    PresenceAnomaly { anomaly_type, client_id, timestamp, description: owned(description), severity: AnomolySeverity::Medium }
}

/// Closes a session at `timestamp`.
fn close_session(session: &mut PresenceSession, timestamp: i64)
    ensures
        final(session)@ == closed_session(old(session)@, timestamp),
{
    session.leave_time = Some(timestamp);
    #[verifier::truncate]
    let d = ((timestamp as i128) - (session.enter_time as i128)) as u64;
    session.duration_ms = Some(d);
    session.is_complete = true;
}

impl PresenceReplay {
    /// Builds the sessions of each client and the presence at the end from
    /// presence messages in the order given, and records anomalies when
    /// the options ask for them. A session still open at the end is added
    /// last to its client's sessions.
    pub fn build_sessions_and_state(&self, messages: &[PresenceMessage], analysis: &mut PresenceAnalysis)
        ensures
            ({
                let m = sessions_after(starting_model(*old(analysis)), message_views(messages@), self.options.detect_anomalies);
                &&& presence_views(final(analysis).current_presence@) == m.current
                &&& session_lists(final(analysis).client_sessions@) == close_sessions(m.sessions, m.active)
                &&& anomaly_views(final(analysis).anomalies@) == m.anomalies
            }),
            final(analysis).patterns == old(analysis).patterns,
            final(analysis).peak_metrics == old(analysis).peak_metrics,
            final(analysis).health_score == old(analysis).health_score,
    {
        let detect = self.options.detect_anomalies;
        let ghost views = message_views(messages@);
        let ghost start = starting_model(*analysis);
        let mut active: StringMap<PresenceSession> = StringMap::new();
        assert(open_sessions(active@) =~= Map::<Seq<char>, SessionView>::empty());
        assert(views.take(0) =~= Seq::<PresenceView>::empty());
        let mut i: usize = 0;
        while i < messages.len()
            invariant
                0 <= i <= messages.len(),
                views == message_views(messages@),
                detect == self.options.detect_anomalies,
                ({
                    let m = sessions_after(start, views.take(i as int), detect);
                    &&& open_sessions(active@) == m.active
                    &&& presence_views(analysis.current_presence@) == m.current
                    &&& session_lists(analysis.client_sessions@) == m.sessions
                    &&& anomaly_views(analysis.anomalies@) == m.anomalies
                }),
                analysis.patterns == old(analysis).patterns,
                analysis.peak_metrics == old(analysis).peak_metrics,
                analysis.health_score == old(analysis).health_score,
            decreases messages.len() - i,
        {
            let ghost before = sessions_after(start, views.take(i as int), detect);
            proof {
                assert(views.take(i + 1).drop_last() =~= views.take(i as int));
                assert(views.take(i + 1).last() == messages@[i as int]@);
            }
            let message = &messages[i];
            if let Some(client_id) = &message.client_id {
                let timestamp: i64 = match message.timestamp {
                    Some(t) => t,
                    None => 0,
                };
                let ghost c = client_id@;
                match message.action {
                    PresenceAction::Enter => {
                        let session = PresenceSession {
                            client_id: client_id.clone(),
                            enter_time: timestamp,
                            leave_time: None,
                            duration_ms: None,
                            data_changes: Vec::new(),
                            is_complete: false,
                        };
                        proof {
                            assert(change_views(session.data_changes@) =~= Seq::<ChangeView>::empty());
                        }
                        if active.contains_key(client_id.as_str()) && detect {
                            let a = anomaly(AnomalyType::DuplicateEnter, client_id.clone(), timestamp, "Client entered while already present");
                            proof {
                                assert(anomaly_views(analysis.anomalies@.push(a)) =~= anomaly_views(analysis.anomalies@).push(a@));
                            }
                            analysis.anomalies.push(a);
                        }
                        proof {
                            lemma_open_insert(active@, c, session);
                        }
                        active.insert(client_id.clone(), session);
                        let copy = message.clone();
                        proof {
                            lemma_presence_insert(analysis.current_presence@, c, copy);
                        }
                        analysis.current_presence.insert(client_id.clone(), copy);
                    },
                    PresenceAction::Update => {
                        let ghost active_before = active@;
                        match active.remove(client_id.as_str()) {
                            Some(mut session) => {
                                let old_data = match analysis.current_presence.get(client_id.as_str()) {
                                    Some(p) => clone_opt_json(&p.data),
                                    None => None,
                                };
                                let change = DataChange { timestamp, old_data, new_data: clone_opt_json(&message.data) };
                                let ghost cs = session.data_changes@;
                                session.data_changes.push(change);
                                proof {
                                    assert(change_views(cs.push(change)) =~= change_views(cs).push(change@));
                                    lemma_open_remove(active_before, c);
                                    lemma_open_insert(active@, c, session);
                                    assert(active_before.remove(c).insert(c, session) =~= active_before.insert(c, session));
                                }
                                active.insert(client_id.clone(), session);
                            },
                            None => {
                                assert(active@ =~= active_before);
                            },
                        }
                        let copy = message.clone();
                        proof {
                            lemma_presence_insert(analysis.current_presence@, c, copy);
                        }
                        analysis.current_presence.insert(client_id.clone(), copy);
                    },
                    PresenceAction::Leave => {
                        let ghost active_before = active@;
                        match active.remove(client_id.as_str()) {
                            Some(mut session) => {
                                proof {
                                    lemma_open_remove(active_before, c);
                                }
                                close_session(&mut session, timestamp);
                                let ghost lists_before = analysis.client_sessions@;
                                let mut list = match analysis.client_sessions.remove(client_id.as_str()) {
                                    Some(l) => l,
                                    None => Vec::new(),
                                };
                                let ghost l0 = list@;
                                list.push(session);
                                proof {
                                    assert(session_views(l0.push(session)) =~= session_views(l0).push(session@));
                                    if !lists_before.contains_key(c) {
                                        assert(session_views(l0) =~= Seq::<SessionView>::empty());
                                    }
                                    lemma_lists_remove(lists_before, c);
                                    lemma_lists_insert(analysis.client_sessions@, c, list);
                                    assert(session_lists(lists_before).remove(c).insert(c, session_views(list@))
                                        =~= add_session(session_lists(lists_before), c, session@));
                                }
                                analysis.client_sessions.insert(client_id.clone(), list);
                            },
                            None => {
                                assert(active@ =~= active_before);
                                if detect {
                                    let a = anomaly(AnomalyType::OrphanedLeave, client_id.clone(), timestamp, "Client left without entering");
                                    proof {
                                        assert(anomaly_views(analysis.anomalies@.push(a)) =~= anomaly_views(analysis.anomalies@).push(a@));
                                    }
                                    analysis.anomalies.push(a);
                                }
                            },
                        }
                        proof {
                            lemma_presence_remove(analysis.current_presence@, c);
                        }
                        analysis.current_presence.remove(client_id.as_str());
                    },
                    _ => {},
                }
            }
            i = i + 1;
        }
        assert(views.take(messages@.len() as int) =~= views);
        let ghost m = sessions_after(start, views, detect);
        // Add each open session last to its client's sessions.
        while !active.is_empty()
            invariant
                close_sessions(session_lists(analysis.client_sessions@), open_sessions(active@)) == close_sessions(m.sessions, m.active),
                presence_views(analysis.current_presence@) == m.current,
                anomaly_views(analysis.anomalies@) == m.anomalies,
                analysis.patterns == old(analysis).patterns,
                analysis.peak_metrics == old(analysis).peak_metrics,
                analysis.health_score == old(analysis).health_score,
            decreases active@.dom().len(),
        {
            let n = active.len();
            let key = active.key_at(0).clone();
            let ghost c = key@;
            let ghost active_before = active@;
            let ghost lists_before = analysis.client_sessions@;
            let session = match active.remove(key.as_str()) {
                Some(s) => s,
                None => {
                    assert(false);
                    return;
                },
            };
            let mut list = match analysis.client_sessions.remove(key.as_str()) {
                Some(l) => l,
                None => Vec::new(),
            };
            let ghost l0 = list@;
            list.push(session);
            proof {
                assert(session_views(l0.push(session)) =~= session_views(l0).push(session@));
                if !lists_before.contains_key(c) {
                    assert(session_views(l0) =~= Seq::<SessionView>::empty());
                }
                lemma_open_remove(active_before, c);
                lemma_lists_remove(lists_before, c);
                lemma_lists_insert(lists_before.remove(c), c, list);
                assert(lists_before.remove(c).insert(c, list) =~= lists_before.insert(c, list));
                let s0 = session_lists(lists_before);
                let a0 = open_sessions(active_before);
                let s1 = session_lists(lists_before.insert(c, list));
                let a1 = open_sessions(active_before.remove(c));
                assert(a0[c] == session@);
                let before_c = if s0.contains_key(c) { s0[c] } else { Seq::<SessionView>::empty() };
                assert(session_views(l0) == before_c);
                assert(s1[c] =~= before_c.push(session@));
                assert(close_sessions(s1, a1)[c] =~= close_sessions(s0, a0)[c]);
                assert(close_sessions(s1, a1) =~= close_sessions(s0, a0));
                assert(active_before.dom().remove(c).len() < active_before.dom().len());
            }
            analysis.client_sessions.insert(key, list);
        }
        proof {
            assert(active@.dom() == Set::<Seq<char>>::empty());
            assert(open_sessions(active@) =~= Map::<Seq<char>, SessionView>::empty());
            assert(close_sessions(session_lists(analysis.client_sessions@), Map::empty()) =~= session_lists(analysis.client_sessions@));
        }
    }
}

/// The state of peak tracking: the concurrency now, the peak and when it
/// was reached, the timeline, and the running sum and count.
pub struct PeakModel {
    pub concurrent: nat,
    pub max: nat,
    pub peak_timestamp: i64,
    pub timeline: Seq<ConcurrencyPoint>,
    pub total: nat,
    pub samples: nat,
}

/// Peak tracking after one presence message out of `n`: entering raises
/// the concurrency (a new peak when it exceeds the old), leaving lowers it
/// down to zero; the timeline takes a point while it has fewer than 1000
/// or the history has fewer than 1000 messages.
pub open spec fn peak_step(st: PeakModel, p: PresenceView, n: nat) -> PeakModel {
    let t = time_or_zero(p.timestamp);
    let c: nat = match p.action {
        PresenceAction::Enter => st.concurrent + 1,
        PresenceAction::Leave => if st.concurrent == 0 { 0 } else { (st.concurrent - 1) as nat },
        _ => st.concurrent,
    };
    let new_peak = p.action == PresenceAction::Enter && c > st.max;
    PeakModel {
        concurrent: c,
        max: if new_peak { c } else { st.max },
        peak_timestamp: if new_peak { t } else { st.peak_timestamp },
        timeline: if st.timeline.len() < 1000 || n < 1000 {
            st.timeline.push(ConcurrencyPoint { timestamp: t, concurrent_count: c as usize })
        } else {
            st.timeline
        },
        total: st.total + c,
        samples: st.samples + 1,
    }
}

/// The metrics record the peak tracking.
pub open spec fn peaks_match(pm: PeakMetrics, m: PeakModel) -> bool {
    &&& pm.max_concurrent == m.max
    &&& pm.peak_timestamp == m.peak_timestamp
    &&& pm.total_concurrent == m.total
    &&& pm.sample_count == m.samples
    &&& pm.concurrency_timeline@ == m.timeline
}

/// Peak tracking after the first messages of `ps`.
pub open spec fn peaks_after(ps: Seq<PresenceView>, n: nat) -> PeakModel
    decreases ps.len(),
{
    if ps.len() == 0 {
        PeakModel { concurrent: 0, max: 0, peak_timestamp: 0, timeline: Seq::empty(), total: 0, samples: 0 }
    } else {
        peak_step(peaks_after(ps.drop_last(), n), ps.last(), n)
    }
}

proof fn lemma_peaks_bounded(ps: Seq<PresenceView>, n: nat)
    ensures
        peaks_after(ps, n).concurrent <= ps.len(),
        peaks_after(ps, n).max <= ps.len(),
        peaks_after(ps, n).samples == ps.len(),
        peaks_after(ps, n).total <= ps.len() * ps.len(),
    decreases ps.len(),
{
    if ps.len() > 0 {
        lemma_peaks_bounded(ps.drop_last(), n);
        let k = ps.len() - 1;
        assert(k * k + ps.len() <= ps.len() * ps.len()) by (nonlinear_arith)
            requires
                k == ps.len() - 1,
                k >= 0,
        ;
    }
}

impl PresenceReplay {
    /// Tracks concurrency over presence messages in the order given.
    pub fn analyze_peak_metrics(&self, messages: &[PresenceMessage], analysis: &mut PresenceAnalysis)
        requires
            messages@.len() <= u32::MAX,
        ensures
            peaks_match(final(analysis).peak_metrics, peaks_after(message_views(messages@), messages@.len())),
            final(analysis).current_presence@ == old(analysis).current_presence@,
            final(analysis).client_sessions@ == old(analysis).client_sessions@,
            final(analysis).client_sessions.pairs() == old(analysis).client_sessions.pairs(),
            final(analysis).patterns == old(analysis).patterns,
            final(analysis).anomalies@ == old(analysis).anomalies@,
            final(analysis).health_score == old(analysis).health_score,
    {
        let n = messages.len();
        let ghost views = message_views(messages@);
        let mut concurrent: usize = 0;
        let mut max_concurrent: usize = 0;
        let mut peak_timestamp: i64 = 0;
        let mut timeline: Vec<ConcurrencyPoint> = Vec::new();
        let mut total: u64 = 0;
        let mut samples: u64 = 0;
        let mut i: usize = 0;
        assert(views.take(0) =~= Seq::<PresenceView>::empty());
        while i < n
            invariant
                n == messages@.len(),
                n <= u32::MAX,
                0 <= i <= n,
                views == message_views(messages@),
                ({
                    let m = peaks_after(views.take(i as int), n as nat);
                    &&& concurrent == m.concurrent
                    &&& max_concurrent == m.max
                    &&& peak_timestamp == m.peak_timestamp
                    &&& timeline@ == m.timeline
                    &&& total == m.total
                    &&& samples == m.samples
                }),
            decreases n - i,
        {
            proof {
                assert(views.take(i + 1).drop_last() =~= views.take(i as int));
                assert(views.take(i + 1).last() == messages@[i as int]@);
                lemma_peaks_bounded(views.take(i + 1), n as nat);
                assert((i + 1) * (i + 1) <= n * n) by (nonlinear_arith)
                    requires
                        i + 1 <= n,
                ;
                assert(n * n <= u32::MAX * u32::MAX) by (nonlinear_arith)
                    requires
                        n <= u32::MAX,
                ;
            }
            let message = &messages[i];
            let timestamp: i64 = match message.timestamp {
                Some(t) => t,
                None => 0,
            };
            match message.action {
                PresenceAction::Enter => {
                    concurrent = concurrent + 1;
                    if concurrent > max_concurrent {
                        max_concurrent = concurrent;
                        peak_timestamp = timestamp;
                    }
                },
                PresenceAction::Leave => {
                    concurrent = concurrent.saturating_sub(1);
                },
                _ => {},
            }
            if timeline.len() < 1000 || n < 1000 {
                timeline.push(ConcurrencyPoint { timestamp, concurrent_count: concurrent });
            }
            total = total + concurrent as u64;
            samples = samples + 1;
            i = i + 1;
        }
        assert(views.take(n as int) =~= views);
        analysis.peak_metrics = PeakMetrics {
            max_concurrent,
            peak_timestamp,
            total_concurrent: total,
            sample_count: samples,
            concurrency_timeline: timeline,
        };
    }
}

/// What an anomaly of a severity takes off the health score.
pub open spec fn severity_penalty(s: AnomolySeverity) -> nat {
    match s {
        AnomolySeverity::Low => 1,
        AnomolySeverity::Medium => 5,
        AnomolySeverity::High => 10,
        AnomolySeverity::Critical => 25,
    }
}

/// A score after the penalties of the anomalies, none below zero.
pub open spec fn after_penalties(score: nat, anomalies: Seq<AnomalyView>) -> nat
    decreases anomalies.len(),
{
    if anomalies.len() == 0 {
        score
    } else {
        let s = after_penalties(score, anomalies.drop_last());
        let p = severity_penalty(anomalies.last().severity);
        if s >= p { (s - p) as nat } else { 0 }
    }
}

/// A score raised by a bonus, at most 255.
pub open spec fn with_bonus(score: nat, bonus: nat) -> nat {
    if score + bonus > 255 { 255 } else { score + bonus }
}

/// All sessions, client after client in the order of the entries.
pub open spec fn all_sessions(pairs: Seq<(String, Vec<PresenceSession>)>) -> Seq<SessionView>
    decreases pairs.len(),
{
    if pairs.len() == 0 {
        Seq::empty()
    } else {
        all_sessions(pairs.drop_last()) + session_views(pairs.last().1@)
    }
}

/// How many of the sessions are complete.
pub open spec fn count_complete(s: Seq<SessionView>) -> nat
    decreases s.len(),
{
    if s.len() == 0 {
        0
    } else {
        count_complete(s.drop_last()) + if s.last().is_complete { 1nat } else { 0nat }
    }
}

proof fn lemma_count_complete_bounded(s: Seq<SessionView>)
    ensures
        count_complete(s) <= s.len(),
    decreases s.len(),
{
    if s.len() > 0 {
        lemma_count_complete_bounded(s.drop_last());
    }
}

/// The health of presence: 100, less the penalties of the anomalies, plus
/// 5 when someone is present, plus 10 when more than four in five sessions
/// are complete; each bonus capped at 255.
pub open spec fn presence_health(a: PresenceAnalysis) -> nat {
    let s1 = after_penalties(100, anomaly_views(a.anomalies@));
    let s2 = if a.current_presence@.dom().len() > 0 { with_bonus(s1, 5) } else { s1 };
    let sessions = all_sessions(a.client_sessions.pairs());
    if sessions.len() > 0 && count_complete(sessions) * 5 > sessions.len() * 4 {
        with_bonus(s2, 10)
    } else {
        s2
    }
}

impl PresenceReplay {
    /// The health score of an analysis.
    pub fn calculate_presence_health(&self, analysis: &PresenceAnalysis) -> (score: u8)
        ensures
            score == presence_health(*analysis),
    {
        let mut score: u8 = 100;
        let mut i: usize = 0;
        let ghost anomalies = anomaly_views(analysis.anomalies@);
        assert(anomalies.take(0) =~= Seq::<AnomalyView>::empty());
        while i < analysis.anomalies.len()
            invariant
                0 <= i <= analysis.anomalies@.len(),
                anomalies == anomaly_views(analysis.anomalies@),
                score == after_penalties(100, anomalies.take(i as int)),
                score <= 100,
            decreases analysis.anomalies@.len() - i,
        {
            proof {
                assert(anomalies.take(i + 1).drop_last() =~= anomalies.take(i as int));
                assert(anomalies.take(i + 1).last() == analysis.anomalies@[i as int]@);
            }
            let penalty: u8 = match analysis.anomalies[i].severity {
                AnomolySeverity::Low => 1,
                AnomolySeverity::Medium => 5,
                AnomolySeverity::High => 10,
                AnomolySeverity::Critical => 25,
            };
            score = score.saturating_sub(penalty);
            i = i + 1;
        }
        assert(anomalies.take(anomalies.len() as int) =~= anomalies);
        if analysis.current_presence.len() > 0 {
            score = score.saturating_add(5);
        }
        let n = analysis.client_sessions.len();
        let ghost pairs = analysis.client_sessions.pairs();
        let mut total: u128 = 0;
        let mut complete: u128 = 0;
        let mut k: usize = 0;
        assert(pairs.take(0) =~= Seq::<(String, Vec<PresenceSession>)>::empty());
        while k < n
            invariant
                n == pairs.len(),
                pairs == analysis.client_sessions.pairs(),
                0 <= k <= n,
                total == all_sessions(pairs.take(k as int)).len(),
                complete == count_complete(all_sessions(pairs.take(k as int))),
                total <= k * usize::MAX,
            decreases n - k,
        {
            let list = analysis.client_sessions.value_at(k);
            let ghost before = all_sessions(pairs.take(k as int));
            proof {
                assert(pairs.take(k + 1).drop_last() =~= pairs.take(k as int));
                assert(pairs.take(k + 1).last() == pairs[k as int]);
                assert(all_sessions(pairs.take(k + 1)) == before + session_views(list@));
                assert(k * usize::MAX + usize::MAX == (k + 1) * usize::MAX) by (nonlinear_arith);
                assert((k + 1) * usize::MAX <= usize::MAX * usize::MAX) by (nonlinear_arith)
                    requires
                        k + 1 <= usize::MAX,
                ;
                assert(usize::MAX * usize::MAX < u128::MAX) by (nonlinear_arith)
                    requires
                        usize::MAX <= u64::MAX,
                ;
            }
            let mut j: usize = 0;
            while j < list.len()
                invariant
                    0 <= j <= list@.len(),
                    total == before.len() + j,
                    before.len() <= k * usize::MAX,
                    k * usize::MAX + usize::MAX < u128::MAX,
                    complete == count_complete(before + session_views(list@).take(j as int)),
                decreases list@.len() - j,
            {
                proof {
                    let vs = session_views(list@);
                    assert((before + vs.take(j + 1)).drop_last() =~= before + vs.take(j as int));
                    assert((before + vs.take(j + 1)).last() == list@[j as int]@);
                    lemma_count_complete_bounded(before + vs.take(j as int));
                }
                total = total + 1;
                if list[j].is_complete {
                    complete = complete + 1;
                }
                j = j + 1;
            }
            assert(session_views(list@).take(list@.len() as int) =~= session_views(list@));
            k = k + 1;
        }
        assert(pairs.take(n as int) =~= pairs);
        proof {
            lemma_count_complete_bounded(all_sessions(pairs));
        }
        // More than four in five complete: complete > 4 * (total - complete).
        let incomplete = total - complete;
        let mostly_complete = if incomplete > u128::MAX / 4 {
            false
        } else {
            complete > incomplete * 4
        };
        if total > 0 && mostly_complete {
            score = score.saturating_add(10);
        }
        score
    }
}

/// The clients of the messages, each once, in the order they first
/// appear.
pub open spec fn first_clients(ps: Seq<PresenceView>) -> Seq<Seq<char>>
    decreases ps.len(),
{
    if ps.len() == 0 {
        Seq::empty()
    } else {
        let prev = first_clients(ps.drop_last());
        match ps.last().client_id {
            Some(c) => if prev.contains(c) { prev } else { prev.push(c) },
            None => prev,
        }
    }
}

/// What is counted of one client's events: how many, how many quick
/// enter-then-leave pairs among consecutive events, and the last event.
pub struct FlapModel {
    pub events: nat,
    pub cycles: nat,
    pub last: Option<(PresenceAction, i64)>,
}

/// The count for client `c` after one message: an event of `c` that
/// leaves less than five seconds (the difference taken as an `i64`) after
/// `c`'s previous event, an entering, is a cycle.
pub open spec fn flap_step(st: FlapModel, p: PresenceView, c: Seq<char>) -> FlapModel {
    if p.client_id == Some(c) {
        let t = time_or_zero(p.timestamp);
        let cycle = match st.last {
            Some((a, t0)) => a == PresenceAction::Enter && p.action == PresenceAction::Leave && ((t - t0) as i64) < 5000,
            None => false,
        };
        FlapModel { events: st.events + 1, cycles: st.cycles + if cycle { 1nat } else { 0nat }, last: Some((p.action, t)) }
    } else {
        st
    }
}

/// The count for client `c` over the messages.
pub open spec fn flaps_after(ps: Seq<PresenceView>, c: Seq<char>) -> FlapModel
    decreases ps.len(),
{
    if ps.len() == 0 {
        FlapModel { events: 0, cycles: 0, last: None }
    } else {
        flap_step(flaps_after(ps.drop_last(), c), ps.last(), c)
    }
}

/// The flapping anomalies of the clients, in order: a client with more
/// than ten events and more than three cycles is flapping, at the time of
/// its last event.
pub open spec fn flapping_anomalies(ps: Seq<PresenceView>, clients: Seq<Seq<char>>) -> Seq<AnomalyView>
    decreases clients.len(),
{
    if clients.len() == 0 {
        Seq::empty()
    } else {
        let prev = flapping_anomalies(ps, clients.drop_last());
        let c = clients.last();
        let f = flaps_after(ps, c);
        if f.events > 10 && f.cycles > 3 {
            prev.push(
                AnomalyView {
                    anomaly_type: AnomalyType::FlappingPresence,
                    client_id: c,
                    timestamp: match f.last {
                        Some((_, t)) => t,
                        None => 0,
                    },
                    description: "Rapid enter/leave cycles detected: "@ + decimal(f.cycles),
                    severity: AnomolySeverity::High,
                },
            )
        } else {
            prev
        }
    }
}

proof fn lemma_flaps_bounded(ps: Seq<PresenceView>, c: Seq<char>)
    ensures
        flaps_after(ps, c).events <= ps.len(),
        flaps_after(ps, c).cycles <= ps.len(),
    decreases ps.len(),
{
    if ps.len() > 0 {
        lemma_flaps_bounded(ps.drop_last(), c);
    }
}

/// The views of strings.
pub open spec fn text_views(v: Seq<String>) -> Seq<Seq<char>> {
    v.map_values(|s: String| s@)
}

/// The clients of the messages in the order they first appear.
fn clients_in_order(messages: &[PresenceMessage]) -> (order: Vec<String>)
    ensures
        text_views(order@) == first_clients(message_views(messages@)),
{
    let ghost views = message_views(messages@);
    let mut order: Vec<String> = Vec::new();
    let mut seen: StringMap<bool> = StringMap::new();
    let mut i: usize = 0;
    assert(views.take(0) =~= Seq::<PresenceView>::empty());
    assert(text_views(order@) =~= Seq::<Seq<char>>::empty());
    while i < messages.len()
        invariant
            0 <= i <= messages@.len(),
            views == message_views(messages@),
            text_views(order@) == first_clients(views.take(i as int)),
            forall|k: Seq<char>| seen@.dom().contains(k) <==> first_clients(views.take(i as int)).contains(k),
        decreases messages@.len() - i,
    {
        proof {
            assert(views.take(i + 1).drop_last() =~= views.take(i as int));
            assert(views.take(i + 1).last() == messages@[i as int]@);
        }
        if let Some(c) = &messages[i].client_id {
            if !seen.contains_key(c.as_str()) {
                let ghost before = order@;
                let copy = c.clone();
                order.push(copy);
                seen.insert(c.clone(), true);
                proof {
                    assert(text_views(before.push(copy)) =~= text_views(before).push(c@));
                    let prev = first_clients(views.take(i as int));
                    assert forall|k: Seq<char>| prev.push(c@).contains(k) <==> (prev.contains(k) || k == c@) by {
                        if prev.push(c@).contains(k) {
                            let j = choose|j: int| 0 <= j < prev.len() + 1 && prev.push(c@)[j] == k;
                            if j < prev.len() {
                                assert(prev[j] == k);
                            }
                        }
                        if prev.contains(k) {
                            let j = choose|j: int| 0 <= j < prev.len() && prev[j] == k;
                            assert(prev.push(c@)[j] == k);
                        }
                        if k == c@ {
                            assert(prev.push(c@)[prev.len() as int] == k);
                        }
                    }
                }
            }
        }
        i = i + 1;
    }
    assert(views.take(messages@.len() as int) =~= views);
    order
}

impl PresenceReplay {
    /// Records the clients that flap: that enter and leave again quickly,
    /// over and over. Clients are taken in the order they first appear.
    pub fn detect_anomalies(&self, messages: &[PresenceMessage], analysis: &mut PresenceAnalysis)
        ensures
            anomaly_views(final(analysis).anomalies@) == anomaly_views(old(analysis).anomalies@) + flapping_anomalies(
                message_views(messages@),
                first_clients(message_views(messages@)),
            ),
            final(analysis).current_presence@ == old(analysis).current_presence@,
            final(analysis).client_sessions@ == old(analysis).client_sessions@,
            final(analysis).client_sessions.pairs() == old(analysis).client_sessions.pairs(),
            final(analysis).patterns == old(analysis).patterns,
            final(analysis).peak_metrics == old(analysis).peak_metrics,
            final(analysis).health_score == old(analysis).health_score,
    {
        let ghost views = message_views(messages@);
        let clients = clients_in_order(messages);
        let ghost cs = text_views(clients@);
        let ghost start = anomaly_views(analysis.anomalies@);
        let mut ci: usize = 0;
        assert(cs.take(0) =~= Seq::<Seq<char>>::empty());
        assert(start + flapping_anomalies(views, cs.take(0)) =~= start);
        while ci < clients.len()
            invariant
                0 <= ci <= clients@.len(),
                views == message_views(messages@),
                cs == text_views(clients@),
                cs == first_clients(views),
                anomaly_views(analysis.anomalies@) == start + flapping_anomalies(views, cs.take(ci as int)),
                analysis.current_presence@ == old(analysis).current_presence@,
                analysis.client_sessions@ == old(analysis).client_sessions@,
                analysis.client_sessions.pairs() == old(analysis).client_sessions.pairs(),
                analysis.patterns == old(analysis).patterns,
                analysis.peak_metrics == old(analysis).peak_metrics,
                analysis.health_score == old(analysis).health_score,
            decreases clients@.len() - ci,
        {
            let client = &clients[ci];
            let ghost c = client@;
            let mut events: usize = 0;
            let mut cycles: u64 = 0;
            let mut last: Option<(PresenceAction, i64)> = None;
            let mut i: usize = 0;
            assert(views.take(0) =~= Seq::<PresenceView>::empty());
            while i < messages.len()
                invariant
                    0 <= i <= messages@.len(),
                    views == message_views(messages@),
                    c == client@,
                    ({
                        let f = flaps_after(views.take(i as int), c);
                        &&& events == f.events
                        &&& cycles == f.cycles
                        &&& last == f.last
                    }),
                decreases messages@.len() - i,
            {
                proof {
                    assert(views.take(i + 1).drop_last() =~= views.take(i as int));
                    assert(views.take(i + 1).last() == messages@[i as int]@);
                    lemma_flaps_bounded(views.take(i as int), c);
                }
                let message = &messages[i];
                let mine = match &message.client_id {
                    Some(id) => *id == *client,
                    None => false,
                };
                if mine {
                    let t: i64 = match message.timestamp {
                        Some(t) => t,
                        None => 0,
                    };
                    let cycle = match last {
                        Some((a, t0)) => {
                            #[verifier::truncate]
                            let d = ((t as i128) - (t0 as i128)) as i64;
                            a == PresenceAction::Enter && message.action == PresenceAction::Leave && d < 5000
                        },
                        None => false,
                    };
                    events = events + 1;
                    if cycle {
                        cycles = cycles + 1;
                    }
                    last = Some((message.action, t));
                }
                i = i + 1;
            }
            assert(views.take(messages@.len() as int) =~= views);
            proof {
                assert(cs.take(ci + 1).drop_last() =~= cs.take(ci as int));
                assert(cs.take(ci + 1).last() == c);
            }
            if events > 10 && cycles > 3 {
                let timestamp: i64 = match last {
                    Some((_, t)) => t,
                    None => 0,
                };
                let mut description = owned("Rapid enter/leave cycles detected: ");
                let count = u64_to_string(cycles);
                append(&mut description, count.as_str());
                let a = PresenceAnomaly {
                    anomaly_type: AnomalyType::FlappingPresence,
                    client_id: client.clone(),
                    timestamp,
                    description,
                    severity: AnomolySeverity::High,
                };
                let ghost before = analysis.anomalies@;
                analysis.anomalies.push(a);
                proof {
                    assert(anomaly_views(before.push(a)) =~= anomaly_views(before).push(a@));
                }
            }
            ci = ci + 1;
        }
        assert(cs.take(clients@.len() as int) =~= cs);
    }
}

/// The hour of the day, 0 to 23, at which a session began; a time before
/// the epoch counts as hour 0 (only those whose hour reads as 0 are
/// accepted).
pub open spec fn entry_hour(t: i64) -> nat {
    if t >= 0 {
        ((t / 1000 / 3600) % 24) as nat
    } else {
        0
    }
}

/// The hour of `t` can be read: `t` is not before the epoch, or it lies a
/// whole number of days before it, give or take less than an hour.
pub open spec fn hour_readable(t: i64) -> bool {
    t >= 0 || ((-t) / 1000 / 3600) % 24 == 0
}

/// How many of the sessions began in hour `h`.
pub open spec fn hour_count(s: Seq<SessionView>, h: nat) -> nat
    decreases s.len(),
{
    if s.len() == 0 {
        0
    } else {
        hour_count(s.drop_last(), h) + if entry_hour(s.last().enter_time) == h { 1nat } else { 0nat }
    }
}

/// The largest of the counts of the hours below `h`.
pub open spec fn max_hour_count(s: Seq<SessionView>, h: nat) -> nat
    decreases h,
{
    if h == 0 {
        0
    } else {
        let m = max_hour_count(s, (h - 1) as nat);
        let c = hour_count(s, (h - 1) as nat);
        if c > m { c } else { m }
    }
}

/// The hours below `h` whose count exceeds `limit`, in order.
pub open spec fn hours_above(s: Seq<SessionView>, limit: nat, h: nat) -> Seq<u8>
    decreases h,
{
    if h == 0 {
        Seq::empty()
    } else {
        let prev = hours_above(s, limit, (h - 1) as nat);
        if hour_count(s, (h - 1) as nat) > limit { prev.push((h - 1) as u8) } else { prev }
    }
}

/// A session is complete with a known duration.
pub open spec fn is_done(x: SessionView) -> bool {
    x.is_complete && x.duration_ms is Some
}

/// The duration of a session, zero when unknown.
pub open spec fn duration_of(x: SessionView) -> nat {
    match x.duration_ms {
        Some(d) => d as nat,
        None => 0,
    }
}

/// How many sessions are complete with a known duration.
pub open spec fn done_count(s: Seq<SessionView>) -> nat
    decreases s.len(),
{
    if s.len() == 0 {
        0
    } else {
        done_count(s.drop_last()) + if is_done(s.last()) { 1nat } else { 0nat }
    }
}

/// The sum of the durations of those sessions.
pub open spec fn done_duration_sum(s: Seq<SessionView>) -> nat
    decreases s.len(),
{
    if s.len() == 0 {
        0
    } else {
        done_duration_sum(s.drop_last()) + if is_done(s.last()) { duration_of(s.last()) } else { 0nat }
    }
}

/// The last of those sessions with the longest duration.
pub open spec fn longest_done(s: Seq<SessionView>) -> Option<SessionView>
    decreases s.len(),
{
    if s.len() == 0 {
        None
    } else {
        let prev = longest_done(s.drop_last());
        let x = s.last();
        if is_done(x) {
            match prev {
                Some(b) => if duration_of(x) >= duration_of(b) { Some(x) } else { prev },
                None => Some(x),
            }
        } else {
            prev
        }
    }
}

/// The last client with the most sessions, with their number.
pub open spec fn most_sessions(pairs: Seq<(String, Vec<PresenceSession>)>) -> Option<(Seq<char>, nat)>
    decreases pairs.len(),
{
    if pairs.len() == 0 {
        None
    } else {
        let prev = most_sessions(pairs.drop_last());
        let n = pairs.last().1@.len();
        match prev {
            Some((_, m)) => if n >= m { Some((pairs.last().0@, n)) } else { prev },
            None => Some((pairs.last().0@, n)),
        }
    }
}

/// The patterns that an analysis of `pairs` finds, from `old`: with no
/// session at all, nothing changes; else the average duration (of the sum
/// taken as a `u64`) and the longest session among the complete sessions
/// (when there are any), the client with most sessions, and the hours in
/// which more sessions began than half the busiest hour's.
pub open spec fn patterns_found(pairs: Seq<(String, Vec<PresenceSession>)>, old: PatternsView, new: PatternsView) -> bool {
    let all = all_sessions(pairs);
    if all.len() == 0 {
        new == old
    } else {
        &&& new.avg_session_duration_ms == (if done_count(all) > 0 {
            (done_duration_sum(all) % 0x1_0000_0000_0000_0000) / done_count(all)
        } else {
            old.avg_session_duration_ms as nat
        })
        &&& new.longest_session_client == match longest_done(all) {
            Some(x) => Some(x.client_id),
            None => old.longest_session_client,
        }
        &&& new.most_active_client == match most_sessions(pairs) {
            Some((c, _)) => Some(c),
            None => old.most_active_client,
        }
        &&& new.peak_hours == hours_above(all, max_hour_count(all, 24) / 2, 24)
        &&& new.common_patterns == old.common_patterns
    }
}

/// Every session of the map has a readable hour.
pub open spec fn hours_readable(m: Map<Seq<char>, Vec<PresenceSession>>) -> bool {
    forall|k: Seq<char>, j: int| m.dom().contains(k) && 0 <= j < m[k]@.len() ==> hour_readable(#[trigger] m[k]@[j].enter_time)
}

proof fn lemma_all_sessions_readable(pairs: Seq<(String, Vec<PresenceSession>)>, i: int)
    requires
        forall|a: int, j: int| 0 <= a < pairs.len() && 0 <= j < pairs[a].1@.len() ==> hour_readable(#[trigger] pairs[a].1@[j].enter_time),
        0 <= i < all_sessions(pairs).len(),
    ensures
        hour_readable(all_sessions(pairs)[i].enter_time),
    decreases pairs.len(),
{
    let t = pairs.drop_last();
    let prev = all_sessions(t);
    if i < prev.len() {
        assert forall|a: int, j: int| 0 <= a < t.len() && 0 <= j < t[a].1@.len() implies hour_readable(#[trigger] t[a].1@[j].enter_time) by {
            assert(t[a] == pairs[a]);
        }
        lemma_all_sessions_readable(t, i);
    } else {
        let a = pairs.len() - 1;
        let j = i - prev.len();
        assert(pairs.last() == pairs[a]);
        assert(all_sessions(pairs)[i] == pairs[a].1@[j]@);
        assert(hour_readable(pairs[a].1@[j].enter_time));
    }
}

proof fn lemma_pairs_readable(pairs: Seq<(String, Vec<PresenceSession>)>)
    requires
        keys_distinct(pairs),
        hours_readable(map_of(pairs)),
    ensures
        forall|i: int| 0 <= i < all_sessions(pairs).len() ==> hour_readable(#[trigger] all_sessions(pairs)[i].enter_time),
{
    assert forall|a: int, j: int| 0 <= a < pairs.len() && 0 <= j < pairs[a].1@.len() implies hour_readable(#[trigger] pairs[a].1@[j].enter_time) by {
        lemma_map_of_value(pairs, a);
        assert(map_of(pairs)[pairs[a].0@] == pairs[a].1);
    }
    assert forall|i: int| 0 <= i < all_sessions(pairs).len() implies hour_readable(#[trigger] all_sessions(pairs)[i].enter_time) by {
        lemma_all_sessions_readable(pairs, i);
    }
}

proof fn lemma_all_sessions_take(pairs: Seq<(String, Vec<PresenceSession>)>, k: int)
    requires
        0 <= k <= pairs.len(),
    ensures
        all_sessions(pairs.take(k)).len() <= all_sessions(pairs).len(),
        all_sessions(pairs).take(all_sessions(pairs.take(k)).len() as int) == all_sessions(pairs.take(k)),
    decreases pairs.len() - k,
{
    if k < pairs.len() {
        lemma_all_sessions_take(pairs, k + 1);
        assert(pairs.take(k + 1).drop_last() =~= pairs.take(k));
        let a = all_sessions(pairs.take(k));
        let b = all_sessions(pairs.take(k + 1));
        assert(b.take(a.len() as int) =~= a);
        assert(all_sessions(pairs).take(a.len() as int) =~= b.take(a.len() as int));
    } else {
        assert(pairs.take(k) =~= pairs);
        assert(all_sessions(pairs).take(all_sessions(pairs).len() as int) =~= all_sessions(pairs));
    }
}

proof fn lemma_counts_bounded(s: Seq<SessionView>, h: nat)
    ensures
        hour_count(s, h) <= s.len(),
        done_count(s) <= s.len(),
    decreases s.len(),
{
    if s.len() > 0 {
        lemma_counts_bounded(s.drop_last(), h);
    }
}

/// The hour at which a session began.
fn session_hour(t: i64) -> (h: usize)
    requires
        hour_readable(t),
    ensures
        h == entry_hour(t),
        h < 24,
{
    if t >= 0 {
        ((t as u64) / 1000 / 3600 % 24) as usize
    } else {
        0
    }
}

impl PresenceReplay {
    /// Finds the patterns of the sessions: average and longest duration,
    /// the most active client and the peak hours. Each session's hour must
    /// be readable.
    pub fn analyze_patterns(&self, analysis: &mut PresenceAnalysis)
        requires
            hours_readable(old(analysis).client_sessions@),
        ensures
            patterns_found(old(analysis).client_sessions.pairs(), old(analysis).patterns@, final(analysis).patterns@),
            final(analysis).current_presence@ == old(analysis).current_presence@,
            final(analysis).current_presence.pairs() == old(analysis).current_presence.pairs(),
            final(analysis).client_sessions@ == old(analysis).client_sessions@,
            final(analysis).client_sessions.pairs() == old(analysis).client_sessions.pairs(),
            final(analysis).anomalies@ == old(analysis).anomalies@,
            final(analysis).peak_metrics == old(analysis).peak_metrics,
            final(analysis).health_score == old(analysis).health_score,
    {
        let ghost pairs = analysis.client_sessions.pairs();
        let ghost all = all_sessions(pairs);
        let n = analysis.client_sessions.len();
        proof {
            lemma_pairs_readable(pairs);
        }
        let mut total: u128 = 0;
        let mut done: u128 = 0;
        let mut sum: u64 = 0;
        let mut longest: Option<String> = None;
        let mut longest_ms: u64 = 0;
        let mut counts: Vec<u128> = Vec::new();
        while counts.len() < 24
            invariant
                counts@.len() <= 24,
                forall|h: int| 0 <= h < counts@.len() ==> counts@[h] == 0,
            decreases 24 - counts@.len(),
        {
            counts.push(0);
        }
        let mut k: usize = 0;
        assert(pairs.take(0) =~= Seq::<(String, Vec<PresenceSession>)>::empty());
        while k < n
            invariant
                n == pairs.len(),
                pairs == analysis.client_sessions.pairs(),
                all == all_sessions(pairs),
                forall|i: int| 0 <= i < all.len() ==> hour_readable(#[trigger] all[i].enter_time),
                0 <= k <= n,
                ({
                    let p = all_sessions(pairs.take(k as int));
                    &&& total == p.len()
                    &&& total <= k * usize::MAX
                    &&& done == done_count(p)
                    &&& sum == done_duration_sum(p) % 0x1_0000_0000_0000_0000
                    &&& counts@.len() == 24
                    &&& forall|h: int| 0 <= h < 24 ==> #[trigger] counts@[h] == hour_count(p, h as nat)
                    &&& match (longest, longest_done(p)) {
                        (None, None) => true,
                        (Some(c), Some(x)) => c@ == x.client_id && longest_ms == duration_of(x),
                        _ => false,
                    }
                }),
            decreases n - k,
        {
            let list = analysis.client_sessions.value_at(k);
            let ghost before = all_sessions(pairs.take(k as int));
            let ghost vs = session_views(list@);
            proof {
                assert(pairs.take(k + 1).drop_last() =~= pairs.take(k as int));
                assert(pairs.take(k + 1).last() == pairs[k as int]);
                assert(all_sessions(pairs.take(k + 1)) == before + vs);
                lemma_all_sessions_take(pairs, k + 1);
                assert(k * usize::MAX + usize::MAX == (k + 1) * usize::MAX) by (nonlinear_arith);
                assert((k + 1) * usize::MAX <= usize::MAX * usize::MAX) by (nonlinear_arith)
                    requires
                        k + 1 <= usize::MAX,
                ;
                assert(usize::MAX * usize::MAX < u128::MAX) by (nonlinear_arith)
                    requires
                        usize::MAX <= u64::MAX,
                ;
            }
            let mut j: usize = 0;
            assert(before + vs.take(0) =~= before);
            while j < list.len()
                invariant
                    0 <= j <= list@.len(),
                    vs == session_views(list@),
                    all.take((before + vs).len() as int) == before + vs,
                    (before + vs).len() <= all.len(),
                    before.len() <= k * usize::MAX,
                    k * usize::MAX + usize::MAX < u128::MAX,
                    forall|i: int| 0 <= i < all.len() ==> hour_readable(#[trigger] all[i].enter_time),
                    ({
                        let p = before + vs.take(j as int);
                        &&& total == p.len()
                        &&& done == done_count(p)
                        &&& sum == done_duration_sum(p) % 0x1_0000_0000_0000_0000
                        &&& counts@.len() == 24
                        &&& forall|h: int| 0 <= h < 24 ==> #[trigger] counts@[h] == hour_count(p, h as nat)
                        &&& match (longest, longest_done(p)) {
                            (None, None) => true,
                            (Some(c), Some(x)) => c@ == x.client_id && longest_ms == duration_of(x),
                            _ => false,
                        }
                    }),
                decreases list@.len() - j,
            {
                let ghost p = before + vs.take(j as int);
                let ghost q = before + vs.take(j + 1);
                let session = &list[j];
                proof {
                    assert(q.drop_last() =~= p);
                    assert(q.last() == session@);
                    assert(all.take(q.len() as int) =~= q);
                    assert(all[p.len() as int] == session@);
                    assert(hour_readable(all[p.len() as int].enter_time));
                    lemma_counts_bounded(p, 0);
                }
                total = total + 1;
                if session.is_complete {
                    if let Some(d) = session.duration_ms {
                        done = done + 1;
                        sum = sum.wrapping_add(d);
                        let better = match &longest {
                            Some(_) => d >= longest_ms,
                            None => true,
                        };
                        if better {
                            longest = Some(session.client_id.clone());
                            longest_ms = d;
                        }
                    }
                }
                let h = session_hour(session.enter_time);
                proof {
                    lemma_counts_bounded(p, h as nat);
                }
                let c = counts[h];
                counts.set(h, c + 1);
                proof {
                    assert forall|g: int| 0 <= g < 24 implies #[trigger] counts@[g] == hour_count(q, g as nat) by {
                        if g == h as int {
                        } else {
                        }
                    }
                }
                j = j + 1;
            }
            assert(vs.take(list@.len() as int) =~= vs);
            k = k + 1;
        }
        assert(pairs.take(n as int) =~= pairs);
        if total == 0 {
            return;
        }
        if done > 0 {
            analysis.patterns.avg_session_duration_ms = ((sum as u128) / done) as u64;
        }
        if let Some(c) = longest {
            analysis.patterns.longest_session_client = Some(c);
        }
        // The client with most sessions, the last of them on a tie.
        let mut most: Option<String> = None;
        let mut most_len: usize = 0;
        let mut k: usize = 0;
        assert(pairs.take(0) =~= Seq::<(String, Vec<PresenceSession>)>::empty());
        while k < n
            invariant
                n == pairs.len(),
                pairs == analysis.client_sessions.pairs(),
                0 <= k <= n,
                match (most, most_sessions(pairs.take(k as int))) {
                    (None, None) => true,
                    (Some(c), Some((x, m))) => c@ == x && most_len == m,
                    _ => false,
                },
            decreases n - k,
        {
            proof {
                assert(pairs.take(k + 1).drop_last() =~= pairs.take(k as int));
                assert(pairs.take(k + 1).last() == pairs[k as int]);
            }
            let len = analysis.client_sessions.value_at(k).len();
            let better = match &most {
                Some(_) => len >= most_len,
                None => true,
            };
            if better {
                most = Some(analysis.client_sessions.key_at(k).clone());
                most_len = len;
            }
            k = k + 1;
        }
        assert(pairs.take(n as int) =~= pairs);
        if let Some(c) = most {
            analysis.patterns.most_active_client = Some(c);
        }
        let mut max_count: u128 = 0;
        let mut h: usize = 0;
        while h < 24
            invariant
                0 <= h <= 24,
                counts@.len() == 24,
                forall|g: int| 0 <= g < 24 ==> #[trigger] counts@[g] == hour_count(all, g as nat),
                max_count == max_hour_count(all, h as nat),
            decreases 24 - h,
        {
            if counts[h] > max_count {
                max_count = counts[h];
            }
            h = h + 1;
        }
        let limit = max_count / 2;
        let mut peaks: Vec<u8> = Vec::new();
        let mut h: usize = 0;
        while h < 24
            invariant
                0 <= h <= 24,
                counts@.len() == 24,
                forall|g: int| 0 <= g < 24 ==> #[trigger] counts@[g] == hour_count(all, g as nat),
                limit == max_hour_count(all, 24) / 2,
                peaks@ == hours_above(all, limit as nat, h as nat),
            decreases 24 - h,
        {
            if counts[h] > limit {
                peaks.push(h as u8);
            }
            h = h + 1;
        }
        analysis.patterns.peak_hours = peaks;
    }
}

/// Session building from nothing.
pub open spec fn empty_model() -> SessionsModel {
    SessionsModel { active: Map::empty(), current: Map::empty(), sessions: Map::empty(), anomalies: Seq::empty() }
}

/// Patterns before any analysis.
pub open spec fn empty_patterns() -> PatternsView {
    PatternsView {
        avg_session_duration_ms: 0,
        peak_hours: Seq::empty(),
        longest_session_client: None,
        most_active_client: None,
        common_patterns: Seq::empty(),
    }
}

/// Every entering message with a client has a readable hour.
pub open spec fn entries_readable(ps: Seq<PresenceView>) -> bool {
    forall|i: int| 0 <= i < ps.len() && (#[trigger] ps[i]).action == PresenceAction::Enter && ps[i].client_id is Some
        ==> hour_readable(time_or_zero(ps[i].timestamp))
}

/// Every session of the model has a readable hour.
pub open spec fn model_readable(st: SessionsModel) -> bool {
    &&& forall|k: Seq<char>| st.active.contains_key(k) ==> hour_readable(#[trigger] st.active[k].enter_time)
    &&& forall|k: Seq<char>, j: int| st.sessions.contains_key(k) && 0 <= j < st.sessions[k].len()
        ==> hour_readable(#[trigger] st.sessions[k][j].enter_time)
}

proof fn lemma_built_readable(st: SessionsModel, ps: Seq<PresenceView>, detect: bool)
    requires
        model_readable(st),
        entries_readable(ps),
    ensures
        model_readable(sessions_after(st, ps, detect)),
    decreases ps.len(),
{
    if ps.len() > 0 {
        let t = ps.drop_last();
        assert(entries_readable(t)) by {
            assert forall|i: int| 0 <= i < t.len() && (#[trigger] t[i]).action == PresenceAction::Enter && t[i].client_id is Some
                implies hour_readable(time_or_zero(t[i].timestamp)) by {
                assert(t[i] == ps[i]);
            }
        }
        lemma_built_readable(st, t, detect);
        let prev = sessions_after(st, t, detect);
        let p = ps.last();
        assert(p == ps[ps.len() - 1]);
        let next = sessions_step(prev, p, detect);
        if let Some(c) = p.client_id {
            if p.action == PresenceAction::Leave && prev.active.contains_key(c) {
                let old_list = if prev.sessions.contains_key(c) { prev.sessions[c] } else { Seq::<SessionView>::empty() };
                assert forall|k: Seq<char>, j: int| next.sessions.contains_key(k) && 0 <= j < next.sessions[k].len()
                    implies hour_readable(#[trigger] next.sessions[k][j].enter_time) by {
                    if k == c {
                        if j < old_list.len() {
                            assert(next.sessions[k][j] == old_list[j]);
                        } else {
                            assert(next.sessions[k][j] == closed_session(prev.active[c], time_or_zero(p.timestamp)));
                        }
                    }
                }
            }
        }
    }
}

impl PresenceReplay {
    /// Analyses presence messages, in the order given: sessions and
    /// presence, then patterns, anomalies and peaks as the options ask,
    /// and the health score. When patterns are tracked, each entering
    /// message's hour must be readable.
    pub fn analyze_presence_messages(&self, messages: &[PresenceMessage]) -> (a: PresenceAnalysis)
        requires
            messages@.len() <= u32::MAX,
            self.options.track_patterns ==> entries_readable(message_views(messages@)),
        ensures
            ({
                let views = message_views(messages@);
                let m = sessions_after(empty_model(), views, self.options.detect_anomalies);
                &&& presence_views(a.current_presence@) == m.current
                &&& session_lists(a.client_sessions@) == close_sessions(m.sessions, m.active)
                &&& anomaly_views(a.anomalies@) == m.anomalies + (if self.options.detect_anomalies {
                    flapping_anomalies(views, first_clients(views))
                } else {
                    Seq::<AnomalyView>::empty()
                })
                &&& if self.options.track_patterns {
                    patterns_found(a.client_sessions.pairs(), empty_patterns(), a.patterns@)
                } else {
                    a.patterns@ == empty_patterns()
                }
                &&& peaks_match(
                    a.peak_metrics,
                    if self.options.track_peaks { peaks_after(views, messages@.len()) } else { peaks_after(Seq::empty(), 0) },
                )
                &&& a.health_score == presence_health(a)
            }),
    {
        let mut analysis = PresenceAnalysis {
            current_presence: StringMap::new(),
            client_sessions: StringMap::new(),
            patterns: PresencePatterns {
                avg_session_duration_ms: 0,
                peak_hours: Vec::new(),
                longest_session_client: None,
                most_active_client: None,
                common_patterns: Vec::new(),
            },
            anomalies: Vec::new(),
            peak_metrics: PeakMetrics {
                max_concurrent: 0,
                peak_timestamp: 0,
                total_concurrent: 0,
                sample_count: 0,
                concurrency_timeline: Vec::new(),
            },
            health_score: 100,
        };
        let ghost views = message_views(messages@);
        proof {
            assert(presence_views(analysis.current_presence@) =~= Map::<Seq<char>, PresenceView>::empty());
            assert(session_lists(analysis.client_sessions@) =~= Map::<Seq<char>, Seq<SessionView>>::empty());
            assert(anomaly_views(analysis.anomalies@) =~= Seq::<AnomalyView>::empty());
            assert(starting_model(analysis) == empty_model());
            assert(analysis.patterns@.common_patterns =~= Seq::<Seq<char>>::empty());
            assert(analysis.patterns@ == empty_patterns());
            assert(analysis.peak_metrics.concurrency_timeline@ =~= Seq::<ConcurrencyPoint>::empty());
        }
        self.build_sessions_and_state(messages, &mut analysis);
        let ghost m = sessions_after(empty_model(), views, self.options.detect_anomalies);
        if self.options.track_patterns {
            proof {
                lemma_built_readable(empty_model(), views, self.options.detect_anomalies);
                let cs = analysis.client_sessions@;
                assert forall|k: Seq<char>, j: int| cs.dom().contains(k) && 0 <= j < cs[k]@.len()
                    implies hour_readable(#[trigger] cs[k]@[j].enter_time) by {
                    assert(session_lists(cs)[k] == session_views(cs[k]@));
                    let closed = close_sessions(m.sessions, m.active);
                    assert(closed.dom().contains(k));
                    assert(closed[k] == session_views(cs[k]@));
                    assert(closed[k].len() == cs[k]@.len());
                    assert(closed[k][j] == cs[k]@[j]@);
                    let before = if m.sessions.contains_key(k) { m.sessions[k] } else { Seq::<SessionView>::empty() };
                    let after = if m.active.contains_key(k) { seq![m.active[k]] } else { Seq::<SessionView>::empty() };
                    assert(closed[k] == before + after);
                    if j < before.len() {
                        assert(closed[k][j] == m.sessions[k][j]);
                        assert(hour_readable(m.sessions[k][j].enter_time));
                    } else {
                        assert(m.active.contains_key(k));
                        assert(closed[k][j] == m.active[k]);
                        assert(hour_readable(m.active[k].enter_time));
                    }
                }
            }
            self.analyze_patterns(&mut analysis);
        }
        if self.options.detect_anomalies {
            self.detect_anomalies(messages, &mut analysis);
        } else {
            assert(anomaly_views(analysis.anomalies@) + Seq::<AnomalyView>::empty() =~= anomaly_views(analysis.anomalies@));
        }
        if self.options.track_peaks {
            self.analyze_peak_metrics(messages, &mut analysis);
        }
        let score = self.calculate_presence_health(&analysis);
        analysis.health_score = score;
        analysis
    }
}

/// Every open session is its client's and not complete; every session
/// recorded for a client is that client's and complete, with the time it
/// left and its duration.
pub open spec fn sessions_well_formed(st: SessionsModel) -> bool {
    &&& forall|k: Seq<char>| st.active.contains_key(k) ==> {
        let x = #[trigger] st.active[k];
        &&& x.client_id == k
        &&& !x.is_complete
        &&& x.leave_time is None
        &&& x.duration_ms is None
    }
    &&& forall|k: Seq<char>, j: int| st.sessions.contains_key(k) && 0 <= j < st.sessions[k].len() ==> {
        let x = #[trigger] st.sessions[k][j];
        &&& x.client_id == k
        &&& x.is_complete
        &&& x.leave_time is Some
        &&& x.duration_ms == Some(((x.leave_time->0) - x.enter_time) as u64)
    }
}

proof fn lemma_sessions_well_formed(st: SessionsModel, ps: Seq<PresenceView>, detect: bool)
    requires
        sessions_well_formed(st),
    ensures
        sessions_well_formed(sessions_after(st, ps, detect)),
    decreases ps.len(),
{
    if ps.len() > 0 {
        lemma_sessions_well_formed(st, ps.drop_last(), detect);
        let prev = sessions_after(st, ps.drop_last(), detect);
        let p = ps.last();
        let next = sessions_step(prev, p, detect);
        if let Some(c) = p.client_id {
            if p.action == PresenceAction::Leave && prev.active.contains_key(c) {
                let old_list = if prev.sessions.contains_key(c) { prev.sessions[c] } else { Seq::<SessionView>::empty() };
                assert forall|k: Seq<char>, j: int| next.sessions.contains_key(k) && 0 <= j < next.sessions[k].len() implies {
                    let x = #[trigger] next.sessions[k][j];
                    &&& x.client_id == k
                    &&& x.is_complete
                    &&& x.leave_time is Some
                    &&& x.duration_ms == Some(((x.leave_time->0) - x.enter_time) as u64)
                } by {
                    if k == c {
                        if j < old_list.len() {
                            assert(next.sessions[k][j] == old_list[j]);
                        } else {
                            assert(next.sessions[k][j] == closed_session(prev.active[c], time_or_zero(p.timestamp)));
                        }
                    }
                }
            }
        }
    }
}

/// Sessions are built consistently: each client's open session is its own
/// and not complete, and each session recorded for a client is its own and
/// complete, lasting from entering to leaving.
pub proof fn law_sessions_are_consistent(ps: Seq<PresenceView>, detect: bool)
    ensures
        sessions_well_formed(sessions_after(empty_model(), ps, detect)),
{
    lemma_sessions_well_formed(empty_model(), ps, detect);
}

} // verus!
