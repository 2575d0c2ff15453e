//! Error bookkeeping for production use: per-category error metrics with a
//! bounded record of recent errors, recovery strategies per category, and
//! aggregation of the errors of a batch operation.

use super::{AblyError, ErrorCategory};
use crate::text::{append, owned, push_decimal, decimal};
use crate::time::{duration_as_millis, duration_as_nanos, elapsed_since, instant_gap_nanos, instant_now};
use vstd::arithmetic::power2::pow2;
use std::time::{Duration, Instant};
use vstd::prelude::*;

verus! {

/// How many recent errors the metrics keep.
pub const RECENT_ERRORS_KEPT: usize = 100;

/// One recorded error.
#[derive(Debug, Clone)]
pub struct ErrorRecord {
    pub timestamp: Instant,
    pub category: ErrorCategory,
    pub message: String,
    pub retryable: bool,
}

/// The count recorded for `cat` in a table of per-category counters.
pub open spec fn counter_of(table: Seq<(ErrorCategory, u64)>, cat: ErrorCategory) -> nat
    decreases table.len(),
{
    if table.len() == 0 {
        0
    } else if table.last().0 == cat {
        table.last().1 as nat
    } else {
        counter_of(table.drop_last(), cat)
    }
}

/// Each category occurs at most once in the table.
pub open spec fn categories_unique(table: Seq<(ErrorCategory, u64)>) -> bool {
    forall|i: int, j: int|
        0 <= i < table.len() && 0 <= j < table.len() && i != j ==> #[trigger] table[i].0
            != #[trigger] table[j].0
}

/// The sum of the counters in the table.
pub open spec fn counters_total(table: Seq<(ErrorCategory, u64)>) -> nat
    decreases table.len(),
{
    if table.len() == 0 {
        0
    } else {
        counters_total(table.drop_last()) + table.last().1 as nat
    }
}

/// Error metrics: how many errors of each category were recorded, and the
/// most recent errors (at most `RECENT_ERRORS_KEPT` of them, oldest first).
pub struct ErrorMetrics {
    counters: Vec<(ErrorCategory, u64)>,
    last_errors: Vec<ErrorRecord>,
    start_time: Instant,
}

impl ErrorMetrics {
    /// The invariant of the metrics.
    pub closed spec fn wf(&self) -> bool {
        &&& categories_unique(self.counters@)
        &&& self.last_errors@.len() <= RECENT_ERRORS_KEPT
    }

    /// The number of errors recorded in category `cat`.
    pub closed spec fn spec_count(&self, cat: ErrorCategory) -> nat {
        counter_of(self.counters@, cat)
    }

    /// The number of errors recorded, over all categories.
    pub closed spec fn spec_total(&self) -> nat {
        counters_total(self.counters@)
    }

    /// The recent errors kept, oldest first.
    pub closed spec fn spec_recent(&self) -> Seq<ErrorRecord> {
        self.last_errors@
    }

    /// Empty metrics, started now.
    pub fn new() -> (m: ErrorMetrics)
        ensures
            m.wf(),
            forall|c: ErrorCategory| m.spec_count(c) == 0,
            m.spec_total() == 0,
            m.spec_recent().len() == 0,
    {
        ErrorMetrics { counters: Vec::new(), last_errors: Vec::new(), start_time: instant_now() }
    }

    /// Records an error: counts it in its category and keeps a record of it
    /// among the recent errors, dropping the oldest record beyond the limit.
    pub fn record_error(&mut self, error: &AblyError)
        requires
            old(self).wf(),
            old(self).spec_count(error.spec_category()) < u64::MAX,
        ensures
            final(self).wf(),
            final(self).spec_count(error.spec_category()) == old(self).spec_count(
                error.spec_category(),
            ) + 1,
            final(self).spec_total() == old(self).spec_total() + 1,
            forall|c: ErrorCategory|
                c != error.spec_category() ==> final(self).spec_count(c) == old(self).spec_count(
                    c,
                ),
            ({
                let grown = old(self).spec_recent().len() + 1;
                let kept: int = if grown > RECENT_ERRORS_KEPT { grown - 1 } else { grown as int };
                &&& final(self).spec_recent().len() == kept
                &&& final(self).spec_recent().last().category == error.spec_category()
                &&& final(self).spec_recent().last().message@ == error.spec_message()
                &&& final(self).spec_recent().last().retryable == error.spec_is_retryable()
                &&& forall|i: int|
                    0 <= i < kept - 1 ==> #[trigger] final(self).spec_recent()[i] == old(
                        self,
                    ).spec_recent()[i + (grown - kept)]
            }),
    {
        let category = error.category();
        let ghost table = self.counters@;
        let mut i: usize = 0;
        while i < self.counters.len() && self.counters[i].0 != category
            invariant
                self.counters@ == table,
                categories_unique(table),
                0 <= i <= table.len(),
                forall|k: int| 0 <= k < i ==> table[k].0 != category,
            decreases table.len() - i,
        {
            i = i + 1;
        }
        let found = i < self.counters.len();
        proof {
            lemma_counter_of_index(table, category, i as int);
        }
        if found {
            let n = self.counters[i].1;
            self.counters.set(i, (category, n + 1));
            proof {
                lemma_counter_of_update(table, category, i as int, (n + 1) as u64);
                lemma_total_update(table, i as int, (category, (n + 1) as u64));
            }
        } else {
            self.counters.push((category, 1));
            proof {
                lemma_counter_of_absent(table, category);
                assert(self.counters@.drop_last() =~= table);
                assert(counters_total(self.counters@) == counters_total(table) + 1);
                assert forall|a: int, b: int|
                    0 <= a < self.counters@.len() && 0 <= b < self.counters@.len() && a
                        != b implies #[trigger] self.counters@[a].0
                    != #[trigger] self.counters@[b].0 by {
                    if a < table.len() && b < table.len() {
                        assert(table[a].0 != table[b].0);
                    } else if a < table.len() {
                        assert(table[a].0 != category);
                    } else {
                        assert(table[b].0 != category);
                    }
                }
            }
        }
        let ghost before = self.last_errors@;
        self.last_errors.push(
            ErrorRecord {
                timestamp: instant_now(),
                category,
                message: error.context(),
                retryable: error.is_retryable(),
            },
        );
        if self.last_errors.len() > RECENT_ERRORS_KEPT {
            self.last_errors.remove(0);
        }
    }

    /// The total number of errors recorded, staying at `u64::MAX` once
    /// there.
    pub fn total_errors(&self) -> (n: u64)
        ensures
            n == (if self.spec_total() > u64::MAX { u64::MAX as nat } else { self.spec_total() }),
    {
        let ghost table = self.counters@;
        let mut total: u64 = 0;
        let mut i: usize = 0;
        while i < self.counters.len()
            invariant
                self.counters@ == table,
                0 <= i <= table.len(),
                total == (if counters_total(table.subrange(0, i as int)) > u64::MAX {
                    u64::MAX as nat
                } else {
                    counters_total(table.subrange(0, i as int))
                }),
            decreases table.len() - i,
        {
            proof {
                assert(table.subrange(0, i + 1).drop_last() =~= table.subrange(0, i as int));
            }
            total = total.saturating_add(self.counters[i].1);
            i = i + 1;
        }
        proof {
            assert(table.subrange(0, table.len() as int) =~= table);
        }
        total
    }

    /// The number of errors recorded in category `category`.
    pub fn count_for(&self, category: ErrorCategory) -> (n: u64)
        requires
            self.wf(),
        ensures
            n == self.spec_count(category),
    {
        let ghost table = self.counters@;
        let mut i: usize = 0;
        while i < self.counters.len()
            invariant
                self.counters@ == table,
                categories_unique(table),
                0 <= i <= table.len(),
                forall|k: int| 0 <= k < i ==> table[k].0 != category,
            decreases table.len() - i,
        {
            if self.counters[i].0 == category {
                proof {
                    lemma_counter_of_index(table, category, i as int);
                }
                return self.counters[i].1;
            }
            i = i + 1;
        }
        proof {
            lemma_counter_of_absent(table, category);
        }
        0
    }

    /// The clock reading when the metrics started.
    pub closed spec fn spec_start(&self) -> Instant {
        self.start_time
    }

    /// The time since the metrics started: the gap from the clock's present
    /// reading to the reading at the start.
    pub fn uptime(&self) -> (d: Duration)
        ensures
            exists|now: Instant| duration_as_nanos(d) == #[trigger] instant_gap_nanos(now, self.spec_start()),
    {
        let d = elapsed_since(&self.start_time);
        proof {
            let now = choose|now: Instant| duration_as_nanos(d) == #[trigger] instant_gap_nanos(now, self.start_time);
            assert(duration_as_nanos(d) == instant_gap_nanos(now, self.spec_start()));
        }
        d
    }

    /// The number of recent errors kept.
    pub fn recent_count(&self) -> (n: usize)
        ensures
            n == self.spec_recent().len(),
    {
        self.last_errors.len()
    }
}

/// When `cat` sits at index `i` of a table without duplicates, its counter
/// is the one stored there; when it sits at no index below `i` and `i` is
/// the table's length, its counter is zero.
proof fn lemma_counter_of_index(table: Seq<(ErrorCategory, u64)>, cat: ErrorCategory, i: int)
    requires
        categories_unique(table),
        0 <= i <= table.len(),
        forall|k: int| 0 <= k < i ==> table[k].0 != cat,
    ensures
        i < table.len() && table[i].0 == cat ==> counter_of(table, cat) == table[i].1,
    decreases table.len(),
{
    if i < table.len() && table[i].0 == cat {
        if table.len() - 1 != i {
            assert(table.last().0 != cat) by {
                assert(table[table.len() - 1].0 != table[i].0);
            }
            let t = table.drop_last();
            assert forall|a: int, b: int|
                0 <= a < t.len() && 0 <= b < t.len() && a != b implies #[trigger] t[a].0
                != #[trigger] t[b].0 by {
                assert(table[a].0 != table[b].0);
            }
            lemma_counter_of_index(t, cat, i);
        }
    }
}

/// A category absent from the table counts zero.
proof fn lemma_counter_of_absent(table: Seq<(ErrorCategory, u64)>, cat: ErrorCategory)
    requires
        forall|k: int| 0 <= k < table.len() ==> table[k].0 != cat,
    ensures
        counter_of(table, cat) == 0,
    decreases table.len(),
{
    if table.len() > 0 {
        lemma_counter_of_absent(table.drop_last(), cat);
    }
}

/// Replacing the counter of `cat` at its index changes only its count.
/// Changing one counter changes the total by the difference.
proof fn lemma_total_update(table: Seq<(ErrorCategory, u64)>, i: int, x: (ErrorCategory, u64))
    requires
        0 <= i < table.len(),
    ensures
        counters_total(table.update(i, x)) + table[i].1 == counters_total(table) + x.1,
    decreases table.len(),
{
    let u = table.update(i, x);
    if i == table.len() - 1 {
        assert(u.drop_last() =~= table.drop_last());
    } else {
        lemma_total_update(table.drop_last(), i, x);
        assert(u.drop_last() =~= table.drop_last().update(i, x));
    }
}

proof fn lemma_counter_of_update(
    table: Seq<(ErrorCategory, u64)>,
    cat: ErrorCategory,
    i: int,
    n: u64,
)
    requires
        categories_unique(table),
        0 <= i < table.len(),
        table[i].0 == cat,
    ensures
        categories_unique(table.update(i, (cat, n))),
        counter_of(table.update(i, (cat, n)), cat) == n,
        forall|c: ErrorCategory|
            c != cat ==> counter_of(table.update(i, (cat, n)), c) == counter_of(table, c),
    decreases table.len(),
{
    let u = table.update(i, (cat, n));
    assert forall|a: int, b: int|
        0 <= a < u.len() && 0 <= b < u.len() && a != b implies #[trigger] u[a].0
        != #[trigger] u[b].0 by {
        assert(table[a].0 != table[b].0);
    }
    if i == table.len() - 1 {
        assert(u.drop_last() =~= table.drop_last());
        assert forall|c: ErrorCategory| c != cat implies counter_of(u, c) == counter_of(table, c) by {
            assert(u.last().0 == cat);
            assert(table.last().0 == cat);
        }
    } else {
        let t = table.drop_last();
        assert forall|a: int, b: int|
            0 <= a < t.len() && 0 <= b < t.len() && a != b implies #[trigger] t[a].0
            != #[trigger] t[b].0 by {
            assert(table[a].0 != table[b].0);
        }
        lemma_counter_of_update(t, cat, i, n);
        assert(u.drop_last() =~= t.update(i, (cat, n)));
        assert(table.last().0 != cat) by {
            assert(table[table.len() - 1].0 != table[i].0);
        }
        assert(u.last() == table.last());
        assert forall|c: ErrorCategory| c != cat implies counter_of(u, c) == counter_of(table, c) by {
            if table.last().0 != c {
                assert(counter_of(u.drop_last(), c) == counter_of(t, c));
            }
        }
    }
}

/// A strategy for recovering from an error.
#[derive(Debug, Clone)]
pub enum RecoveryStrategy {
    /// Retry after the given delay.
    Retry(Duration),
    /// Fall back to an alternative service.
    Fallback(String),
    /// Degrade gracefully.
    Degrade,
    /// Fail immediately.
    FailFast,
    /// Queue for later processing.
    Queue,
}

impl RecoveryStrategy {
    /// A copy of the strategy.
    pub fn duplicate(&self) -> (r: RecoveryStrategy)
        ensures
            r == *self,
    {
        match self {
            RecoveryStrategy::Retry(d) => RecoveryStrategy::Retry(*d),
            RecoveryStrategy::Fallback(s) => RecoveryStrategy::Fallback(s.clone()),
            RecoveryStrategy::Degrade => RecoveryStrategy::Degrade,
            RecoveryStrategy::FailFast => RecoveryStrategy::FailFast,
            RecoveryStrategy::Queue => RecoveryStrategy::Queue,
        }
    }
}

/// The default recovery for a category: retry network errors after one
/// second, rate limits after thirty seconds and internal errors after five;
/// fail fast on everything else.
pub open spec fn spec_default_recovery(cat: ErrorCategory, r: RecoveryStrategy) -> bool {
    match cat {
        ErrorCategory::Network => r matches RecoveryStrategy::Retry(d) && duration_as_millis(d)
            == 1000,
        ErrorCategory::RateLimit => r matches RecoveryStrategy::Retry(d) && duration_as_millis(d)
            == 30000,
        ErrorCategory::Internal => r matches RecoveryStrategy::Retry(d) && duration_as_millis(d)
            == 5000,
        _ => r is FailFast,
    }
}

/// Recovery strategies per error category.
pub struct ErrorRecovery {
    strategies: Vec<(ErrorCategory, RecoveryStrategy)>,
}

impl ErrorRecovery {
    /// The table holds the default strategies of the five categories that
    /// have one: network, rate limit, authentication, internal, bad request.
    pub closed spec fn wf(&self) -> bool {
        let t = self.strategies@;
        &&& t.len() == 5
        &&& t[0].0 == ErrorCategory::Network
        &&& t[1].0 == ErrorCategory::RateLimit
        &&& t[2].0 == ErrorCategory::Auth
        &&& t[3].0 == ErrorCategory::Internal
        &&& t[4].0 == ErrorCategory::BadRequest
        &&& forall|i: int| 0 <= i < 5 ==> spec_default_recovery(#[trigger] t[i].0, t[i].1)
    }

    /// The default strategies: retry network errors after 1 s, rate limits
    /// after 30 s, internal errors after 5 s; fail fast on authentication
    /// errors and bad requests.
    pub fn new() -> (r: ErrorRecovery)
        ensures
            r.wf(),
    {
        let mut strategies: Vec<(ErrorCategory, RecoveryStrategy)> = Vec::new();
        strategies.push((ErrorCategory::Network, RecoveryStrategy::Retry(Duration::from_secs(1))));
        strategies.push(
            (ErrorCategory::RateLimit, RecoveryStrategy::Retry(Duration::from_secs(30))),
        );
        strategies.push((ErrorCategory::Auth, RecoveryStrategy::FailFast));
        strategies.push((ErrorCategory::Internal, RecoveryStrategy::Retry(Duration::from_secs(5))));
        strategies.push((ErrorCategory::BadRequest, RecoveryStrategy::FailFast));
        ErrorRecovery { strategies }
    }

    /// The strategy for recovering from `error`, by its category.
    pub fn get_strategy(&self, error: &AblyError) -> (r: RecoveryStrategy)
        requires
            self.wf(),
        ensures
            spec_default_recovery(error.spec_category(), r),
    {
        let category = error.category();
        let mut i: usize = 0;
        while i < self.strategies.len()
            invariant
                self.wf(),
                category == error.spec_category(),
                0 <= i <= self.strategies.len(),
                forall|k: int| 0 <= k < i ==> self.strategies@[k].0 != category,
            decreases self.strategies.len() - i,
        {
            if self.strategies[i].0 == category {
                proof {
                    assert(spec_default_recovery(self.strategies@[i as int].0, self.strategies@[i as int].1));
                }
                return self.strategies[i].1.duplicate();
            }
            i = i + 1;
        }
        proof {
            assert(self.strategies@[0].0 != category);
            assert(self.strategies@[1].0 != category);
            assert(self.strategies@[2].0 != category);
            assert(self.strategies@[3].0 != category);
            assert(self.strategies@[4].0 != category);
        }
        RecoveryStrategy::FailFast
    }
}

/// The summary line of the error at index `i` (0-based).
pub open spec fn summary_line(i: nat, e: AblyError) -> Seq<char> {
    "  "@ + decimal(i + 1) + ". "@ + e.spec_message() + "\n"@
}

/// The summary lines of the first `k` errors.
pub open spec fn summary_lines(errors: Seq<AblyError>, k: nat) -> Seq<char>
    decreases k,
{
    if k == 0 || k > errors.len() {
        Seq::<char>::empty()
    } else {
        summary_lines(errors, (k - 1) as nat) + summary_line((k - 1) as nat, errors[k - 1])
    }
}

/// The summary of a non-empty list of errors: a header with the count, a
/// line for each of the first five errors, and a line for how many more
/// there are.
pub open spec fn spec_summary(errors: Seq<AblyError>) -> Seq<char> {
    let n = errors.len();
    let shown: nat = if n < 5 { n } else { 5 };
    decimal(n) + " errors occurred:\n"@ + summary_lines(errors, shown) + if n > 5 {
        "  ... and "@ + decimal((n - 5) as nat) + " more errors\n"@
    } else {
        Seq::<char>::empty()
    }
}

/// Collects the errors of a batch operation, up to a maximum.
pub struct ErrorAggregator {
    errors: Vec<AblyError>,
    max_errors: usize,
}

impl ErrorAggregator {
    /// The errors collected so far, in order.
    pub closed spec fn spec_errors(&self) -> Seq<AblyError> {
        self.errors@
    }

    /// The maximum the aggregator was made with.
    pub closed spec fn spec_max(&self) -> nat {
        self.max_errors as nat
    }

    /// An empty aggregator that refuses more errors once `max_errors` are
    /// collected.
    pub fn new(max_errors: usize) -> (a: ErrorAggregator)
        ensures
            a.spec_errors().len() == 0,
            a.spec_max() == max_errors,
    {
        ErrorAggregator { errors: Vec::new(), max_errors }
    }

    /// Adds an error; fails once the number of collected errors reaches the
    /// maximum (the error is kept either way).
    pub fn add_error(&mut self, error: AblyError) -> (r: Result<(), AblyError>)
        ensures
            final(self).spec_errors() == old(self).spec_errors().push(error),
            final(self).spec_max() == old(self).spec_max(),
            r is Ok <==> final(self).spec_errors().len() < final(self).spec_max(),
            r matches Err(e) ==> e matches AblyError::Api { code, message } && code == 50001
                && message@ == "Too many errors: "@ + decimal(final(self).spec_errors().len())
                + " errors accumulated"@,
    {
        self.errors.push(error);
        if self.errors.len() >= self.max_errors {
            let mut text: Vec<char> = Vec::new();
            push_decimal(&mut text, self.errors.len() as u128);
            let mut message = owned("Too many errors: ");
            let count = crate::text::string_of(text.as_slice());
            append(&mut message, count.as_str());
            append(&mut message, " errors accumulated");
            assert(text@ =~= decimal(self.errors@.len()));
            Err(AblyError::Api { code: 50001, message })
        } else {
            Ok(())
        }
    }

    /// Whether any error was collected.
    pub fn has_errors(&self) -> (r: bool)
        ensures
            r == (self.spec_errors().len() > 0),
    {
        !self.errors.is_empty()
    }

    /// A summary of the collected errors, or `None` when there are none.
    pub fn get_summary(&self) -> (r: Option<String>)
        ensures
            match r {
                None => self.spec_errors().len() == 0,
                Some(s) => self.spec_errors().len() > 0 && s@ == spec_summary(self.spec_errors()),
            },
    {
        let n = self.errors.len();
        if n == 0 {
            return None;
        }
        let mut text: Vec<char> = Vec::new();
        push_decimal(&mut text, n as u128);
        let mut summary = crate::text::string_of(text.as_slice());
        append(&mut summary, " errors occurred:\n");
        let shown: usize = if n < 5 { n } else { 5 };
        let mut i: usize = 0;
        while i < shown
            invariant
                n == self.errors@.len(),
                shown <= n,
                shown <= 5,
                0 <= i <= shown,
                summary@ == decimal(n as nat) + " errors occurred:\n"@ + summary_lines(
                    self.errors@,
                    i as nat,
                ),
            decreases shown - i,
        {
            let mut idx: Vec<char> = Vec::new();
            push_decimal(&mut idx, (i + 1) as u128);
            let number = crate::text::string_of(idx.as_slice());
            append(&mut summary, "  ");
            append(&mut summary, number.as_str());
            append(&mut summary, ". ");
            let message = self.errors[i].context();
            append(&mut summary, message.as_str());
            append(&mut summary, "\n");
            proof {
                assert(idx@ =~= decimal((i + 1) as nat));
                assert(summary_lines(self.errors@, (i + 1) as nat) == summary_lines(
                    self.errors@,
                    i as nat,
                ) + summary_line(i as nat, self.errors@[i as int]));
            }
            i = i + 1;
        }
        if n > 5 {
            let mut more: Vec<char> = Vec::new();
            push_decimal(&mut more, (n - 5) as u128);
            let count = crate::text::string_of(more.as_slice());
            append(&mut summary, "  ... and ");
            append(&mut summary, count.as_str());
            append(&mut summary, " more errors\n");
            assert(more@ =~= decimal((n - 5) as nat));
        }
        assert(summary@ =~= spec_summary(self.errors@));
        Some(summary)
    }
}

/// How long retries stay denied after the last failure once the failures
/// reach the breaking threshold, in seconds.
pub const RETRY_COOLDOWN_SECS: u64 = 60;

/// Whether attempt `attempt` may be retried: the error must be retryable,
/// the attempts must stay under the limit, and once the failures reach the
/// threshold, the last failure (`since_last_failure` ago, if any) must lie
/// a cooldown back.
pub fn retry_allowed(
    retryable: bool,
    attempt: u32,
    max_attempts: u32,
    failures: u32,
    threshold: u32,
    since_last_failure: Option<Duration>,
) -> (b: bool)
    ensures
        b == (retryable && attempt < max_attempts && !(failures >= threshold && match since_last_failure {
            Some(d) => duration_as_nanos(d) < RETRY_COOLDOWN_SECS * 1_000_000_000,
            None => false,
        })),
{
    if !retryable {
        return false;
    }
    if attempt >= max_attempts {
        return false;
    }
    if failures >= threshold {
        if let Some(d) = since_last_failure {
            if d.as_nanos() < (RETRY_COOLDOWN_SECS as u128) * 1_000_000_000 {
                return false;
            }
        }
    }
    true
}

/// The delay before retry attempt `attempt` (from 1), before jitter, in
/// milliseconds: the initial delay doubled per earlier attempt, at most the
/// maximum.
pub fn retry_base_delay_ms(initial_ms: u64, max_ms: u64, attempt: u32) -> (d: u64)
    requires
        1 <= attempt <= 64,
        initial_ms * pow2((attempt - 1) as nat) <= u64::MAX,
    ensures
        d == (if initial_ms * pow2((attempt - 1) as nat) < max_ms {
            initial_ms * pow2((attempt - 1) as nat)
        } else {
            max_ms as int
        }),
{
    let n: u32 = attempt - 1;
    let mut factor: u64 = 1;
    let mut i: u32 = 0;
    proof {
        vstd::arithmetic::power2::lemma2_to64();
    }
    while i < n
        invariant
            i <= n < 64,
            factor == pow2(i as nat),
        decreases n - i,
    {
        proof {
            vstd::arithmetic::power2::lemma_pow2_unfold((i + 1) as nat);
            vstd::arithmetic::power2::lemma_pow2_strictly_increases((i + 1) as nat, 64);
            vstd::arithmetic::power2::lemma2_to64();
        }
        factor = factor * 2;
        i = i + 1;
    }
    let exponential = initial_ms * factor;
    if exponential < max_ms {
        exponential
    } else {
        max_ms
    }
}

} // verus!
