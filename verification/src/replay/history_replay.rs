//! Replay of a channel's history after reconnection: where a replay starts
//! and ends, the query it makes, the last serial of each channel and the
//! progress of a replay.

use crate::protocol::messages::{opt_text, Message};
use crate::strmap::StringMap;
use crate::text::{append, i64_to_string, owned, signed_decimal, u64_to_string, decimal};
use vstd::prelude::*;

verus! {

/// Where a replay starts or ends.
#[derive(Debug, Clone)]
pub enum ReplayPosition {
    /// A time, in milliseconds since the Unix epoch.
    Timestamp(i64),
    /// A message serial.
    Serial(String),
    /// A channel serial.
    ChannelSerial(String),
    /// The present.
    Now,
    /// The start of the history kept.
    Beginning,
}

/// Options of a history replay.
#[derive(Debug, Clone)]
pub struct ReplayOptions {
    pub start: ReplayPosition,
    pub end: Option<ReplayPosition>,
    pub limit: Option<u32>,
    /// `forwards` or `backwards`.
    pub direction: Option<String>,
}

impl Default for ReplayOptions {
    fn default() -> (o: ReplayOptions)
        ensures
            o.start is Now,
            o.end is None,
            o.limit == Some(100u32),
            opt_text(o.direction) == Some("backwards"@),
    {
        ReplayOptions { start: ReplayPosition::Now, end: None, limit: Some(100), direction: Some(owned("backwards")) }
    }
}

/// The query value of a position: a timestamp's decimal, `serial:` or
/// `channel-serial:` before a serial, `0` for the beginning; none for now.
pub open spec fn position_value(p: ReplayPosition) -> Option<Seq<char>> {
    match p {
        ReplayPosition::Timestamp(ts) => Some(signed_decimal(ts as int)),
        ReplayPosition::Serial(s) => Some("serial:"@ + s@),
        ReplayPosition::ChannelSerial(s) => Some("channel-serial:"@ + s@),
        ReplayPosition::Now => None,
        ReplayPosition::Beginning => Some("0"@),
    }
}

/// The query value of an end position: as a start, but the present and
/// the beginning set no end.
pub open spec fn end_value(p: ReplayPosition) -> Option<Seq<char>> {
    match p {
        ReplayPosition::Beginning => None,
        _ => position_value(p),
    }
}

fn position_text(p: &ReplayPosition) -> (r: Option<String>)
    ensures
        opt_text(r) == position_value(*p),
{
    match p {
        ReplayPosition::Timestamp(ts) => Some(i64_to_string(*ts)),
        ReplayPosition::Serial(s) => {
            let mut t = owned("serial:");
            append(&mut t, s.as_str());
            Some(t)
        },
        ReplayPosition::ChannelSerial(s) => {
            let mut t = owned("channel-serial:");
            append(&mut t, s.as_str());
            Some(t)
        },
        ReplayPosition::Now => None,
        ReplayPosition::Beginning => Some(owned("0")),
    }
}

/// The history query a replay makes: `start`, `end`, `limit` and
/// `direction`, each when the options set it.
pub fn replay_params(options: &ReplayOptions) -> (params: StringMap<String>)
    ensures
        match position_value(options.start) {
            Some(v) => params@.dom().contains("start"@) && params@["start"@]@ == v,
            None => !params@.dom().contains("start"@),
        },
        match options.end {
            Some(e) => match end_value(e) {
                Some(v) => params@.dom().contains("end"@) && params@["end"@]@ == v,
                None => !params@.dom().contains("end"@),
            },
            None => !params@.dom().contains("end"@),
        },
        match options.limit {
            Some(l) => params@.dom().contains("limit"@) && params@["limit"@]@ == decimal(l as nat),
            None => !params@.dom().contains("limit"@),
        },
        match options.direction {
            Some(d) => params@.dom().contains("direction"@) && params@["direction"@]@ == d@,
            None => !params@.dom().contains("direction"@),
        },
        forall|k: Seq<char>| #[trigger] params@.dom().contains(k) ==> k == "start"@ || k == "end"@ || k == "limit"@
            || k == "direction"@,
{
    proof {
        reveal_strlit("start");
        reveal_strlit("end");
        reveal_strlit("limit");
        reveal_strlit("direction");
        assert("start"@.len() == 5 && "end"@.len() == 3 && "limit"@.len() == 5 && "direction"@.len() == 9);
        assert("start"@[0] == 's' && "limit"@[0] == 'l');
        assert("start"@ != "end"@ && "start"@ != "limit"@ && "start"@ != "direction"@);
        assert("end"@ != "limit"@ && "end"@ != "direction"@ && "limit"@ != "direction"@);
    }
    let mut params: StringMap<String> = StringMap::new();
    match position_text(&options.start) {
        Some(v) => {
            let _ = params.insert(owned("start"), v);
        },
        None => {},
    }
    match &options.end {
        Some(end) => match end {
            ReplayPosition::Beginning => {},
            _ => match position_text(end) {
                Some(v) => {
                    let _ = params.insert(owned("end"), v);
                },
                None => {},
            },
        },
        None => {},
    }
    match options.limit {
        Some(l) => {
            let _ = params.insert(owned("limit"), u64_to_string(l as u64));
        },
        None => {},
    }
    match &options.direction {
        Some(d) => {
            let _ = params.insert(owned("direction"), d.clone());
        },
        None => {},
    }
    params
}

/// The last serial of each channel.
#[derive(Debug)]
pub struct ChannelSerialTracker {
    serials: StringMap<String>,
}

impl ChannelSerialTracker {
    /// The serials, by channel name.
    pub closed spec fn spec_serials(&self) -> Map<Seq<char>, Seq<char>> {
        self.serials@.map_values(|s: String| s@)
    }

    /// A tracker with no serial.
    pub fn new() -> (t: ChannelSerialTracker)
        ensures
            t.spec_serials() == Map::<Seq<char>, Seq<char>>::empty(),
    {
        let t = ChannelSerialTracker { serials: StringMap::new() };
        assert(t.spec_serials() =~= Map::<Seq<char>, Seq<char>>::empty());
        t
    }

    /// Records the last serial of a channel.
    pub fn update(&mut self, channel_name: &str, serial: String)
        ensures
            final(self).spec_serials() == old(self).spec_serials().insert(channel_name@, serial@),
    {
        let _ = self.serials.insert(owned(channel_name), serial);
        assert(self.spec_serials() =~= old(self).spec_serials().insert(channel_name@, serial@));
    }

    /// The last serial of a channel.
    pub fn get(&self, channel_name: &str) -> (r: Option<&String>)
        ensures
            match r {
                Some(s) => self.spec_serials().dom().contains(channel_name@) && self.spec_serials()[channel_name@] == s@,
                None => !self.spec_serials().dom().contains(channel_name@),
            },
    {
        self.serials.get(channel_name)
    }

    /// Forgets the serial of a channel.
    pub fn clear(&mut self, channel_name: &str)
        ensures
            final(self).spec_serials() == old(self).spec_serials().remove(channel_name@),
    {
        let _ = self.serials.remove(channel_name);
        assert(self.spec_serials() =~= old(self).spec_serials().remove(channel_name@));
    }

    /// Forgets every serial.
    pub fn clear_all(&mut self)
        ensures
            final(self).spec_serials() == Map::<Seq<char>, Seq<char>>::empty(),
    {
        self.serials.clear();
        assert(self.spec_serials() =~= Map::<Seq<char>, Seq<char>>::empty());
    }
}

impl Default for ChannelSerialTracker {
    fn default() -> (t: ChannelSerialTracker)
        ensures
            t.spec_serials() == Map::<Seq<char>, Seq<char>>::empty(),
    {
        ChannelSerialTracker::new()
    }
}

/// A serial recorded for a channel is the one read back, until the next
/// update or clear of that channel.
pub proof fn law_tracker_reads_back(m: Map<Seq<char>, Seq<char>>, channel: Seq<char>, serial: Seq<char>)
    ensures
        m.insert(channel, serial).dom().contains(channel),
        m.insert(channel, serial)[channel] == serial,
        !m.remove(channel).dom().contains(channel),
{
}

/// The progress of a replay on one channel.
#[derive(Debug, Clone)]
pub struct ReplayState {
    pub channel: String,
    pub last_serial: Option<String>,
    pub last_channel_serial: Option<String>,
    pub last_timestamp: Option<i64>,
    pub replayed_count: usize,
    pub in_progress: bool,
}

impl ReplayState {
    /// A replay of `channel` not started.
    pub fn new(channel: String) -> (s: ReplayState)
        ensures
            s.channel == channel,
            s.last_serial is None && s.last_channel_serial is None && s.last_timestamp is None,
            s.replayed_count == 0,
            !s.in_progress,
    {
        ReplayState {
            channel,
            last_serial: None,
            last_channel_serial: None,
            last_timestamp: None,
            replayed_count: 0,
            in_progress: false,
        }
    }

    /// Counts a replayed message, keeping its timestamp if it has one.
    pub fn update_from_message(&mut self, message: &Message)
        requires
            old(self).replayed_count < usize::MAX,
        ensures
            final(self).last_timestamp == (match message.timestamp {
                Some(t) => Some(t),
                None => old(self).last_timestamp,
            }),
            final(self).replayed_count == old(self).replayed_count + 1,
            final(self).channel == old(self).channel,
            final(self).last_serial == old(self).last_serial,
            final(self).last_channel_serial == old(self).last_channel_serial,
            final(self).in_progress == old(self).in_progress,
    {
        match message.timestamp {
            Some(t) => {
                self.last_timestamp = Some(t);
            },
            None => {},
        }
        self.replayed_count = self.replayed_count + 1;
    }

    /// Starts a replay, counting from zero.
    pub fn start(&mut self)
        ensures
            final(self).in_progress,
            final(self).replayed_count == 0,
            final(self).channel == old(self).channel,
            final(self).last_serial == old(self).last_serial,
            final(self).last_channel_serial == old(self).last_channel_serial,
            final(self).last_timestamp == old(self).last_timestamp,
    {
        self.in_progress = true;
        self.replayed_count = 0;
    }

    /// Ends the replay.
    pub fn complete(&mut self)
        ensures
            !final(self).in_progress,
            final(self).replayed_count == old(self).replayed_count,
            final(self).channel == old(self).channel,
            final(self).last_serial == old(self).last_serial,
            final(self).last_channel_serial == old(self).last_channel_serial,
            final(self).last_timestamp == old(self).last_timestamp,
    {
        self.in_progress = false;
    }

    /// Forgets everything but the channel.
    pub fn reset(&mut self)
        ensures
            final(self).channel == old(self).channel,
            final(self).last_serial is None && final(self).last_channel_serial is None
                && final(self).last_timestamp is None,
            final(self).replayed_count == 0,
            !final(self).in_progress,
    {
        self.last_serial = None;
        self.last_channel_serial = None;
        self.last_timestamp = None;
        self.replayed_count = 0;
        self.in_progress = false;
    }
}

} // verus!
