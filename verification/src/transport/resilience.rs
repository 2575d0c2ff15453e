//! Resilience of the WebSocket transport: backoff between reconnections,
//! the queue of messages awaiting acknowledgement, and connection
//! statistics.

use crate::codec::{random_up_to, uuid_v4_text};
use crate::error::{AblyError, AblyResult};
use crate::protocol::messages::ProtocolMessage;
use crate::text::owned;
use crate::time::{duration_as_nanos, elapsed_since, instant_gap_nanos, instant_now};
use std::time::Duration;
use std::time::Instant;
use vstd::prelude::*;
use vstd::arithmetic::power2::pow2;

verus! {

/// The nanoseconds in `Duration::MAX`: `u64::MAX` seconds and 999 999 999
/// nanoseconds.
pub open spec fn duration_max_nanos() -> nat {
    u64::MAX as nat * 1_000_000_000 + 999_999_999
}

/// The backoff before reconnection attempt `retry_count + 1`, without
/// jitter, in nanoseconds: the base doubled once per retry, at most the
/// maximum.
pub open spec fn capped_backoff_nanos(retry_count: u32, base_nanos: nat, max_nanos: nat) -> nat {
    let exponential = base_nanos * pow2(retry_count as nat);
    if exponential < max_nanos {
        exponential
    } else {
        max_nanos
    }
}

/// The largest jitter, in whole milliseconds, for a backoff of `capped`
/// nanoseconds: a quarter of its whole milliseconds.
pub open spec fn jitter_limit_ms(capped: nat) -> nat {
    capped / 1_000_000 / 4
}

/// The largest jitter that can be added, once the drawn number is cut to
/// 64 bits.
pub open spec fn largest_added_jitter_ms(capped: nat) -> nat {
    if jitter_limit_ms(capped) <= u64::MAX {
        jitter_limit_ms(capped)
    } else {
        u64::MAX as nat
    }
}

/// The backoff before reconnection attempt `retry_count + 1`: the base
/// delay doubled once per retry, at most the maximum, plus a random jitter
/// of whole milliseconds, up to a quarter of the whole milliseconds of that
/// backoff (the drawn number cut to 64 bits). The doubling and the final
/// sum must stay within `Duration::MAX`, or std panics.
pub fn calculate_backoff(retry_count: u32, base_delay: Duration, max_delay: Duration) -> (d: Duration)
    requires
        retry_count < 32,
        duration_as_nanos(base_delay) * pow2(retry_count as nat) <= duration_max_nanos(),
        ({
            let capped = capped_backoff_nanos(retry_count, duration_as_nanos(base_delay) as nat, duration_as_nanos(
                max_delay,
            ) as nat);
            capped + largest_added_jitter_ms(capped) * 1_000_000 <= duration_max_nanos()
        }),
    ensures
        ({
            let capped = capped_backoff_nanos(retry_count, duration_as_nanos(base_delay) as nat, duration_as_nanos(
                max_delay,
            ) as nat);
            exists|j: nat| #![trigger j % 0x1_0000_0000_0000_0000] j <= jitter_limit_ms(capped)
                && duration_as_nanos(d) == capped + (j % 0x1_0000_0000_0000_0000) * 1_000_000
        }),
{
    let base = base_delay.as_nanos();
    let max = max_delay.as_nanos();
    let mut factor: u128 = 1;
    let mut i: u32 = 0;
    proof {
        vstd::arithmetic::power2::lemma2_to64();
    }
    while i < retry_count
        invariant
            i <= retry_count < 32,
            factor == pow2(i as nat),
        decreases retry_count - i,
    {
        proof {
            vstd::arithmetic::power2::lemma_pow2_unfold((i + 1) as nat);
            vstd::arithmetic::power2::lemma_pow2_strictly_increases(i as nat, 32);
            vstd::arithmetic::power2::lemma2_to64();
            assert(pow2(32) == 0x1_0000_0000);
        }
        factor = factor * 2;
        i = i + 1;
    }
    proof {
        vstd::arithmetic::power2::lemma_pow2_strictly_increases(retry_count as nat, 32);
        vstd::arithmetic::power2::lemma2_to64();
        assert(base * factor <= 0x1_0000_0000_0000_0000_0000_0000u128 * 0x1_0000_0000u128) by (nonlinear_arith)
            requires
                base < 0x1_0000_0000_0000_0000_0000_0000u128,
                factor <= 0x1_0000_0000u128,
        ;
    }
    let exponential = base * factor;
    let capped = if exponential < max {
        exponential
    } else {
        max
    };
    let drawn = random_up_to(capped / 1_000_000 / 4);
    let jitter: u64 = #[verifier::truncate] (drawn as u64);
    assert((drawn as u64) == drawn % 0x1_0000_0000_0000_0000) by (bit_vector);
    assert(jitter <= largest_added_jitter_ms(capped as nat));
    let total: u128 = capped + (jitter as u128) * 1_000_000;
    assert(total / 1_000_000_000 <= u64::MAX) by (nonlinear_arith)
        requires
            total <= u64::MAX as u128 * 1_000_000_000 + 999_999_999,
    ;
    let d = Duration::new((total / 1_000_000_000) as u64, (total % 1_000_000_000) as u32);
    proof {
        assert(drawn as nat <= jitter_limit_ms(capped as nat));
        assert(duration_as_nanos(d) == capped + (drawn as nat % 0x1_0000_0000_0000_0000) * 1_000_000);
    }
    d
}

/// A message awaiting acknowledgement.
#[derive(Debug, Clone)]
pub struct QueuedMessage {
    pub id: String,
    pub content: ProtocolMessage,
    pub timestamp: Instant,
    pub retry_count: u32,
}

/// The most messages awaiting acknowledgement.
pub const MAX_QUEUE_SIZE: usize = 1000;

/// The most acknowledged ids remembered before the older half is dropped.
pub const ACKNOWLEDGED_LIMIT: usize = 1000;

/// Messages sent and not yet acknowledged, and the ids acknowledged.
#[derive(Debug)]
pub struct MessageQueue {
    pending: Vec<QueuedMessage>,
    acknowledged: Vec<String>,
}


/// The pending messages whose id is not `id`, in order.
pub open spec fn without_id(p: Seq<QueuedMessage>, id: Seq<char>) -> Seq<QueuedMessage>
    decreases p.len(),
{
    if p.len() == 0 {
        p
    } else if p.last().id@ == id {
        without_id(p.drop_last(), id)
    } else {
        without_id(p.drop_last(), id).push(p.last())
    }
}

/// Removing an id that no pending message has leaves the queue as it is.
proof fn lemma_without_absent_id(p: Seq<QueuedMessage>, id: Seq<char>)
    requires
        forall|i: int| 0 <= i < p.len() ==> (#[trigger] p[i]).id@ != id,
    ensures
        without_id(p, id) == p,
    decreases p.len(),
{
    if p.len() > 0 {
        lemma_without_absent_id(p.drop_last(), id);
        assert(p.drop_last().push(p.last()) =~= p);
    }
}

/// Acknowledging the id a message was queued under takes it off the queue
/// again: the pending messages are those before it was queued, when no
/// other pending message had that id.
pub proof fn law_acknowledge_undoes_enqueue(p: Seq<QueuedMessage>, q: QueuedMessage)
    requires
        forall|i: int| 0 <= i < p.len() ==> (#[trigger] p[i]).id@ != q.id@,
    ensures
        without_id(p.push(q), q.id@) == p,
{
    assert(p.push(q).drop_last() =~= p);
    lemma_without_absent_id(p, q.id@);
}

/// The acknowledged ids after one more: the older half dropped past the
/// limit.
pub open spec fn acknowledged_after(a: Seq<Seq<char>>, id: Seq<char>) -> Seq<Seq<char>> {
    let b = a.push(id);
    if b.len() > ACKNOWLEDGED_LIMIT {
        b.subrange(500, b.len() as int)
    } else {
        b
    }
}

impl MessageQueue {
    #[verifier::type_invariant]
    spec fn bounded(self) -> bool {
        &&& self.pending@.len() <= MAX_QUEUE_SIZE
        &&& self.acknowledged@.len() <= ACKNOWLEDGED_LIMIT
    }

    /// The messages awaiting acknowledgement, oldest first.
    pub closed spec fn spec_pending(&self) -> Seq<QueuedMessage> {
        self.pending@
    }

    /// The ids acknowledged, oldest first.
    pub closed spec fn spec_acknowledged(&self) -> Seq<Seq<char>> {
        self.acknowledged@.map_values(|s: String| s@)
    }

    /// An empty queue.
    pub fn new() -> (q: MessageQueue)
        ensures
            q.spec_pending().len() == 0,
            q.spec_acknowledged().len() == 0,
    {
        MessageQueue { pending: Vec::new(), acknowledged: Vec::new() }
    }

    /// Queues `message` under a fresh id, unless the queue is full.
    pub fn enqueue(&mut self, message: ProtocolMessage) -> (r: AblyResult<String>)
        ensures
            old(self).spec_pending().len() >= MAX_QUEUE_SIZE ==> (r matches Err(AblyError::Internal { message: m })
                && m@ == "Message queue full"@) && final(self).spec_pending() == old(self).spec_pending(),
            old(self).spec_pending().len() < MAX_QUEUE_SIZE ==> (r matches Ok(id) && final(self).spec_pending().len()
                == old(self).spec_pending().len() + 1 && final(self).spec_pending().drop_last()
                == old(self).spec_pending() && final(self).spec_pending().last().id@ == id@
                && final(self).spec_pending().last().content == message
                && final(self).spec_pending().last().retry_count == 0),
            final(self).spec_acknowledged() == old(self).spec_acknowledged(),
    {
        proof {
            use_type_invariant(&*self);
        }
        if self.pending.len() >= MAX_QUEUE_SIZE {
            return Err(AblyError::Internal { message: owned("Message queue full") });
        }
        let id = uuid_v4_text();
        let queued = QueuedMessage { id: id.clone(), content: message, timestamp: instant_now(), retry_count: 0 };
        let mut pending: Vec<QueuedMessage> = Vec::new();
        std::mem::swap(&mut pending, &mut self.pending);
        let ghost before = pending@;
        pending.push(queued);
        assert(pending@.drop_last() =~= before);
        self.pending = pending;
        Ok(id)
    }

    /// The number of messages awaiting acknowledgement.
    pub fn pending_count(&self) -> (n: usize)
        ensures
            n == self.spec_pending().len(),
    {
        self.pending.len()
    }

    /// Acknowledges `id`: the messages with that id leave the queue, and
    /// the id is remembered.
    pub fn acknowledge(&mut self, id: String)
        ensures
            final(self).spec_pending() == without_id(old(self).spec_pending(), id@),
            final(self).spec_acknowledged() == acknowledged_after(old(self).spec_acknowledged(), id@),
    {
        proof {
            use_type_invariant(&*self);
        }
        let ghost p0 = self.pending@;
        let mut kept: Vec<QueuedMessage> = Vec::new();
        let mut rest: Vec<QueuedMessage> = Vec::new();
        std::mem::swap(&mut rest, &mut self.pending);
        let n = rest.len();
        let mut i: usize = 0;
        while rest.len() > 0
            invariant
                n == p0.len(),
                p0.len() <= MAX_QUEUE_SIZE,
                0 <= i <= n,
                rest@ == p0.subrange(i as int, n as int),
                kept@ == without_id(p0.take(i as int), id@),
                kept@.len() <= i,
            decreases rest@.len(),
        {
            proof {
                assert(p0.take(i + 1).drop_last() =~= p0.take(i as int));
                assert(p0.take(i + 1).last() == p0[i as int]);
            }
            let q = rest.remove(0);
            if !(q.id == id) {
                kept.push(q);
            }
            i = i + 1;
            proof {
                assert(rest@ =~= p0.subrange(i as int, n as int));
            }
        }
        proof {
            assert(p0.take(n as int) =~= p0);
        }
        self.pending = kept;
        let ghost a0 = self.spec_acknowledged();
        let mut acked: Vec<String> = Vec::new();
        std::mem::swap(&mut acked, &mut self.acknowledged);
        acked.push(id);
        if acked.len() > ACKNOWLEDGED_LIMIT {
            acked = acked.split_off(500);
        }
        self.acknowledged = acked;
        proof {
            assert(self.spec_acknowledged() =~= acknowledged_after(a0, id@));
        }
    }

    /// Drops every pending message.
    pub fn clear(&mut self)
        ensures
            final(self).spec_pending().len() == 0,
            final(self).spec_acknowledged() == old(self).spec_acknowledged(),
    {
        proof {
            use_type_invariant(&*self);
        }
        self.pending = Vec::new();
    }
}

/// Statistics of a connection.
#[derive(Debug)]
pub struct ConnectionStats {
    pub connected_at: Option<Instant>,
    pub disconnected_at: Option<Instant>,
    pub messages_sent: u64,
    pub messages_received: u64,
    pub bytes_sent: u64,
    pub bytes_received: u64,
    pub reconnect_count: u32,
    pub error_count: u32,
}

impl ConnectionStats {
    /// Statistics with nothing recorded.
    pub fn new() -> (s: ConnectionStats)
        ensures
            s.connected_at is None && s.disconnected_at is None,
            s.messages_sent == 0 && s.messages_received == 0 && s.bytes_sent == 0 && s.bytes_received == 0,
            s.reconnect_count == 0 && s.error_count == 0,
    {
        ConnectionStats {
            connected_at: None,
            disconnected_at: None,
            messages_sent: 0,
            messages_received: 0,
            bytes_sent: 0,
            bytes_received: 0,
            reconnect_count: 0,
            error_count: 0,
        }
    }

    /// Records a connection, now.
    pub fn record_connect(&mut self)
        ensures
            final(self).connected_at is Some,
            final(self).disconnected_at == old(self).disconnected_at,
            final(self).messages_sent == old(self).messages_sent,
            final(self).bytes_sent == old(self).bytes_sent,
    {
        self.connected_at = Some(instant_now());
    }

    /// Records a disconnection, now.
    pub fn record_disconnect(&mut self)
        ensures
            final(self).disconnected_at is Some,
            final(self).connected_at == old(self).connected_at,
            final(self).messages_sent == old(self).messages_sent,
            final(self).bytes_sent == old(self).bytes_sent,
    {
        self.disconnected_at = Some(instant_now());
    }

    /// Counts a message sent of `size` bytes.
    pub fn record_message_sent(&mut self, size: usize)
        requires
            old(self).messages_sent < u64::MAX,
            old(self).bytes_sent + size <= u64::MAX,
        ensures
            final(self).messages_sent == old(self).messages_sent + 1,
            final(self).bytes_sent == old(self).bytes_sent + size,
            final(self).messages_received == old(self).messages_received,
            final(self).bytes_received == old(self).bytes_received,
            final(self).reconnect_count == old(self).reconnect_count,
            final(self).error_count == old(self).error_count,
    {
        self.messages_sent = self.messages_sent + 1;
        self.bytes_sent = self.bytes_sent + size as u64;
    }

    /// Counts a message received of `size` bytes.
    pub fn record_message_received(&mut self, size: usize)
        requires
            old(self).messages_received < u64::MAX,
            old(self).bytes_received + size <= u64::MAX,
        ensures
            final(self).messages_received == old(self).messages_received + 1,
            final(self).bytes_received == old(self).bytes_received + size,
            final(self).messages_sent == old(self).messages_sent,
            final(self).bytes_sent == old(self).bytes_sent,
            final(self).reconnect_count == old(self).reconnect_count,
            final(self).error_count == old(self).error_count,
    {
        self.messages_received = self.messages_received + 1;
        self.bytes_received = self.bytes_received + size as u64;
    }

    /// Counts a reconnection.
    pub fn record_reconnect(&mut self)
        requires
            old(self).reconnect_count < u32::MAX,
        ensures
            final(self).reconnect_count == old(self).reconnect_count + 1,
            final(self).error_count == old(self).error_count,
            final(self).messages_sent == old(self).messages_sent,
            final(self).messages_received == old(self).messages_received,
    {
        self.reconnect_count = self.reconnect_count + 1;
    }

    /// Counts an error.
    pub fn record_error(&mut self)
        requires
            old(self).error_count < u32::MAX,
        ensures
            final(self).error_count == old(self).error_count + 1,
            final(self).reconnect_count == old(self).reconnect_count,
            final(self).messages_sent == old(self).messages_sent,
            final(self).messages_received == old(self).messages_received,
    {
        self.error_count = self.error_count + 1;
    }

    /// The time since the connection, if there was one.
    pub fn uptime(&self) -> (d: Option<Duration>)
        ensures
            d is Some == self.connected_at is Some,
            match (d, self.connected_at) {
                (Some(u), Some(t)) => exists|now: Instant| duration_as_nanos(u) == #[trigger] instant_gap_nanos(now, t),
                _ => true,
            },
    {
        match &self.connected_at {
            Some(t) => Some(elapsed_since(t)),
            None => None,
        }
    }
}

} // verus!
