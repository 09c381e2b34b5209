//! Alert dispatch policy: per-(symbol, type) cooldowns, a sliding
//! 60-second rate limit, and priority ordering of pending alerts.
//!
//! The decision logic lives here; actually delivering an approved alert is
//! the caller's business.

use vstd::prelude::*;
use vstd::pervasive::VecAdditionalExecFns;
use crate::numeric::sat_sub;
use crate::config::TelegramConfig;
use crate::types::Alert;
use crate::types::AlertType;
use crate::types::Timestamp;

verus! {

/// The dispatch times at or after the cutoff, oldest first.
pub open spec fn recent_only(s: Seq<Timestamp>, cutoff: int) -> Seq<Timestamp>
    decreases s.len(),
{
    if s.len() == 0 {
        Seq::empty()
    } else {
        let rest = recent_only(s.drop_last(), cutoff);
        if s.last() >= cutoff {
            rest.push(s.last())
        } else {
            rest
        }
    }
}

pub open spec fn key_matches(e: (String, AlertType, Timestamp), sym: Seq<char>, ty: AlertType) -> bool {
    e.0@ == sym && e.1 == ty
}

/// The recorded time of the last alert for a (symbol, type) key: the first
/// matching entry of the tracker.
pub open spec fn lookup_last(
    m: Seq<(String, AlertType, Timestamp)>,
    sym: Seq<char>,
    ty: AlertType,
) -> Option<Timestamp>
    decreases m.len(),
{
    if m.len() == 0 {
        None
    } else if key_matches(m[0], sym, ty) {
        Some(m[0].2)
    } else {
        lookup_last(m.drop_first(), sym, ty)
    }
}

proof fn lemma_lookup_first_match(
    m: Seq<(String, AlertType, Timestamp)>,
    sym: Seq<char>,
    ty: AlertType,
    i: int,
)
    requires
        0 <= i < m.len(),
        key_matches(m[i], sym, ty),
        forall|j: int| 0 <= j < i ==> !key_matches(#[trigger] m[j], sym, ty),
    ensures
        lookup_last(m, sym, ty) == Some(m[i].2),
    decreases i,
{
    if i > 0 {
        lemma_lookup_first_match(m.drop_first(), sym, ty, i - 1);
    }
}

proof fn lemma_lookup_none(m: Seq<(String, AlertType, Timestamp)>, sym: Seq<char>, ty: AlertType)
    requires
        forall|j: int| 0 <= j < m.len() ==> !key_matches(#[trigger] m[j], sym, ty),
    ensures
        lookup_last(m, sym, ty) is None,
    decreases m.len(),
{
    if m.len() > 0 {
        lemma_lookup_none(m.drop_first(), sym, ty);
    }
}

/// Two trackers that agree, entry by entry, on whether and with what time a
/// key matches, agree on the lookup.
proof fn lemma_lookup_pointwise(
    m1: Seq<(String, AlertType, Timestamp)>,
    m2: Seq<(String, AlertType, Timestamp)>,
    sym: Seq<char>,
    ty: AlertType,
)
    requires
        m1.len() == m2.len(),
        forall|j: int|
            0 <= j < m1.len() ==> (key_matches(#[trigger] m1[j], sym, ty) <==> key_matches(
                #[trigger] m2[j],
                sym,
                ty,
            )),
        forall|j: int|
            0 <= j < m1.len() && key_matches(#[trigger] m1[j], sym, ty) ==> m1[j].2 == m2[j].2,
    ensures
        lookup_last(m1, sym, ty) == lookup_last(m2, sym, ty),
    decreases m1.len(),
{
    if m1.len() > 0 {
        if !key_matches(m1[0], sym, ty) {
            lemma_lookup_pointwise(m1.drop_first(), m2.drop_first(), sym, ty);
        }
    }
}

proof fn lemma_lookup_push(
    m: Seq<(String, AlertType, Timestamp)>,
    e: (String, AlertType, Timestamp),
    sym: Seq<char>,
    ty: AlertType,
)
    ensures
        lookup_last(m.push(e), sym, ty) == (if lookup_last(m, sym, ty) is Some {
            lookup_last(m, sym, ty)
        } else if key_matches(e, sym, ty) {
            Some(e.2)
        } else {
            None
        }),
    decreases m.len(),
{
    if m.len() == 0 {
        assert(m.push(e)[0] == e);
        assert(m.push(e).drop_first() =~= Seq::<(String, AlertType, Timestamp)>::empty());
        if key_matches(e, sym, ty) {
            assert(lookup_last(m.push(e), sym, ty) == Some(e.2));
        } else {
            assert(lookup_last(m.push(e), sym, ty) == lookup_last(
                m.push(e).drop_first(),
                sym,
                ty,
            ));
            assert(lookup_last(m.push(e), sym, ty) is None);
        }
    } else {
        assert(m.push(e)[0] == m[0]);
        assert(m.push(e).drop_first() =~= m.drop_first().push(e));
        lemma_lookup_push(m.drop_first(), e, sym, ty);
        if key_matches(m[0], sym, ty) {
            assert(lookup_last(m.push(e), sym, ty) == Some(m[0].2));
            assert(lookup_last(m, sym, ty) == Some(m[0].2));
        } else {
            assert(lookup_last(m.push(e), sym, ty) == lookup_last(
                m.drop_first().push(e),
                sym,
                ty,
            ));
            assert(lookup_last(m, sym, ty) == lookup_last(m.drop_first(), sym, ty));
        }
    }
}

/// Index of the first tracker entry for the key, or the length if there is
/// none.
fn find_key(m: &Vec<(String, AlertType, Timestamp)>, sym: &String, ty: &AlertType) -> (r: usize)
    ensures
        r <= m@.len(),
        r < m@.len() ==> key_matches(m@[r as int], sym@, *ty) && forall|j: int|
            0 <= j < r ==> !key_matches(#[trigger] m@[j], sym@, *ty),
        r == m@.len() ==> forall|j: int|
            0 <= j < m@.len() ==> !key_matches(#[trigger] m@[j], sym@, *ty),
{
    let n = m.len();
    let mut i: usize = 0;
    while i < n
        invariant
            0 <= i <= n == m@.len(),
            forall|j: int| 0 <= j < i ==> !key_matches(#[trigger] m@[j], sym@, *ty),
        decreases n - i,
    {
        let e = &m[i];
        if e.0 == *sym && e.1 == *ty {
            return i;
        }
        i = i + 1;
    }
    n
}

/// Counts and orders alerts before delivery.
pub struct TelegramDispatcher {
    pub config: TelegramConfig,
    /// Last dispatch time per (symbol, alert type), first match wins.
    pub last_alert_times: Vec<(String, AlertType, Timestamp)>,
    /// Dispatch times within the sliding rate-limit window.
    pub alerts_this_minute: Vec<Timestamp>,
}

/// Counts for observability.
#[derive(Debug, Clone)]
pub struct AlertStats {
    pub total_cooldowns: usize,
    pub alerts_this_minute: usize,
}

impl TelegramDispatcher {
    pub fn new(config: TelegramConfig) -> (d: TelegramDispatcher)
        ensures
            d.config == config,
            d.last_alert_times@.len() == 0,
            d.alerts_this_minute@.len() == 0,
    {
        TelegramDispatcher { config, last_alert_times: Vec::new(), alerts_this_minute: Vec::new() }
    }

    /// An alert passes the cooldown exactly when no alert of the same
    /// (symbol, type) was dispatched, or the last one is at least
    /// `alert_cooldown_secs` old.
    pub fn check_cooldown(&self, alert: &Alert) -> (r: bool)
        ensures
            r == match lookup_last(self.last_alert_times@, alert.symbol@, alert.alert_type) {
                None => true,
                Some(t) => sat_sub(alert.timestamp as int, t as int)
                    >= self.config.alert_cooldown_secs,
            },
    {
        let n = self.last_alert_times.len();
        let mut i: usize = 0;
        while i < n
            invariant
                0 <= i <= n == self.last_alert_times@.len(),
                forall|j: int|
                    0 <= j < i ==> !key_matches(
                        #[trigger] self.last_alert_times@[j],
                        alert.symbol@,
                        alert.alert_type,
                    ),
            decreases n - i,
        {
            let e = &self.last_alert_times[i];
            if e.0 == alert.symbol && e.1 == alert.alert_type {
                proof {
                    lemma_lookup_first_match(
                        self.last_alert_times@,
                        alert.symbol@,
                        alert.alert_type,
                        i as int,
                    );
                }
                let last_time = e.2;
                let elapsed = if alert.timestamp >= last_time {
                    alert.timestamp - last_time
                } else {
                    0
                };
                return elapsed >= self.config.alert_cooldown_secs;
            }
            i = i + 1;
        }
        proof {
            lemma_lookup_none(self.last_alert_times@, alert.symbol@, alert.alert_type);
        }
        true
    }

    /// Prunes rate-limit entries older than sixty seconds, then tells
    /// whether the window still has room for one more dispatch.
    pub fn check_rate_limit(&mut self, now: Timestamp) -> (r: bool)
        ensures
            final(self).alerts_this_minute@ == recent_only(
                old(self).alerts_this_minute@,
                sat_sub(now as int, 60),
            ),
            r == (final(self).alerts_this_minute@.len()
                < old(self).config.max_alerts_per_minute),
            final(self).config == old(self).config,
            final(self).last_alert_times@ == old(self).last_alert_times@,
    {
        let one_minute_ago = if now >= 60 {
            now - 60
        } else {
            0
        };
        let ghost av = self.alerts_this_minute@;
        let mut kept: Vec<Timestamp> = Vec::new();
        let mut i: usize = 0;
        while i < self.alerts_this_minute.len()
            invariant
                0 <= i <= av.len(),
                self.alerts_this_minute@ == av,
                one_minute_ago == sat_sub(now as int, 60),
                kept@ == recent_only(av.take(i as int), one_minute_ago as int),
            decreases av.len() - i,
        {
            let ts = self.alerts_this_minute[i];
            proof {
                assert(av.take(i + 1).drop_last() =~= av.take(i as int));
                assert(av.take(i + 1).last() == av[i as int]);
            }
            if ts >= one_minute_ago {
                kept.push(ts);
            }
            i = i + 1;
        }
        proof {
            assert(av.take(av.len() as int) =~= av);
        }
        let within = kept.len() < self.config.max_alerts_per_minute;
        self.alerts_this_minute = kept;
        within
    }

    /// Records a dispatched alert: its (symbol, type) cooldown key now maps
    /// to its timestamp — every other key is untouched — and its timestamp
    /// joins the rate-limit window.
    pub fn record_dispatch(&mut self, alert: &Alert)
        ensures
            lookup_last(final(self).last_alert_times@, alert.symbol@, alert.alert_type) == Some(
                alert.timestamp,
            ),
            forall|s2: Seq<char>, t2: AlertType|
                !(s2 == alert.symbol@ && t2 == alert.alert_type) ==> lookup_last(
                    final(self).last_alert_times@,
                    s2,
                    t2,
                ) == lookup_last(old(self).last_alert_times@, s2, t2),
            final(self).alerts_this_minute@ == old(self).alerts_this_minute@.push(
                alert.timestamp,
            ),
            final(self).config == old(self).config,
            final(self).last_alert_times@.len() <= old(self).last_alert_times@.len() + 1,
    {
        let ghost mv = self.last_alert_times@;
        let n = self.last_alert_times.len();
        let i = find_key(&self.last_alert_times, &alert.symbol, &alert.alert_type);
        if i < n {
            // The key exists: refresh its timestamp in place.
            proof {
                assert(key_matches(mv[i as int], alert.symbol@, alert.alert_type));
            }
            self.last_alert_times.set(
                i,
                (alert.symbol.clone(), alert.alert_type, alert.timestamp),
            );
            proof {
                let nv = self.last_alert_times@;
                assert(key_matches(nv[i as int], alert.symbol@, alert.alert_type));
                lemma_lookup_first_match(nv, alert.symbol@, alert.alert_type, i as int);
                assert forall|s2: Seq<char>, t2: AlertType|
                    !(s2 == alert.symbol@ && t2 == alert.alert_type) implies lookup_last(
                    nv,
                    s2,
                    t2,
                ) == lookup_last(mv, s2, t2) by {
                    assert(!key_matches(mv[i as int], s2, t2));
                    assert(!key_matches(nv[i as int], s2, t2));
                    lemma_lookup_pointwise(nv, mv, s2, t2);
                }
            }
        } else {
            // New key: append it.
            self.last_alert_times.push(
                (alert.symbol.clone(), alert.alert_type, alert.timestamp),
            );
            proof {
                let nv = self.last_alert_times@;
                let e = nv.last();
                assert(nv =~= mv.push(e));
                lemma_lookup_none(mv, alert.symbol@, alert.alert_type);
                lemma_lookup_push(mv, e, alert.symbol@, alert.alert_type);
                assert forall|s2: Seq<char>, t2: AlertType|
                    !(s2 == alert.symbol@ && t2 == alert.alert_type) implies lookup_last(
                    nv,
                    s2,
                    t2,
                ) == lookup_last(mv, s2, t2) by {
                    lemma_lookup_push(mv, e, s2, t2);
                    if lookup_last(mv, s2, t2) is None {
                        assert(!key_matches(e, s2, t2));
                    }
                }
            }
        }
        self.alerts_this_minute.push(alert.timestamp);
    }

    /// Tracker sizes, for observability.
    pub fn get_stats(&self) -> (s: AlertStats)
        ensures
            s.total_cooldowns == self.last_alert_times@.len(),
            s.alerts_this_minute == self.alerts_this_minute@.len(),
    {
        AlertStats {
            total_cooldowns: self.last_alert_times.len(),
            alerts_this_minute: self.alerts_this_minute.len(),
        }
    }
}

/// Delivery priority of an alert type: confirmed setups outrank range
/// patterns, which outrank raw momentum.
pub open spec fn spec_priority(t: AlertType) -> int {
    match t {
        AlertType::LongSetupConfirmed => 10,
        AlertType::ShortSetupConfirmed => 10,
        AlertType::AccumulationDetected => 7,
        AlertType::DistributionDetected => 7,
        AlertType::PumpDetected => 5,
        AlertType::DumpDetected => 5,
    }
}

/// Where a new alert of the given priority belongs in a queue: after every
/// pending alert of the same or higher priority.
pub open spec fn insert_pos(q: Seq<Alert>, pr: int) -> int
    decreases q.len(),
{
    if q.len() == 0 {
        0
    } else if spec_priority(q[0].alert_type) < pr {
        0
    } else {
        1 + insert_pos(q.drop_first(), pr)
    }
}

proof fn lemma_insert_pos_is(q: Seq<Alert>, pr: int, i: int)
    requires
        0 <= i <= q.len(),
        forall|j: int| 0 <= j < i ==> spec_priority(#[trigger] q[j].alert_type) >= pr,
        i < q.len() ==> spec_priority(q[i].alert_type) < pr,
    ensures
        insert_pos(q, pr) == i,
    decreases i,
{
    if q.len() == 0 {
    } else if i == 0 {
    } else {
        lemma_insert_pos_is(q.drop_first(), pr, i - 1);
    }
}

/// Pending alerts, highest priority first; alerts of equal priority keep
/// their arrival order.
pub struct AlertPriorityQueue {
    pub queue: Vec<Alert>,
}

impl AlertPriorityQueue {
    /// Priorities never ascend along the queue.
    pub open spec fn wf(self) -> bool {
        forall|i: int, j: int|
            0 <= i <= j < self.queue@.len() ==> spec_priority(#[trigger] self.queue@[i].alert_type)
                >= spec_priority(#[trigger] self.queue@[j].alert_type)
    }

    pub fn new() -> (q: AlertPriorityQueue)
        ensures
            q.queue@.len() == 0,
            q.wf(),
    {
        AlertPriorityQueue { queue: Vec::new() }
    }

    /// Numeric delivery priority of an alert type.
    pub fn get_priority(alert_type: &AlertType) -> (p: u8)
        ensures
            p == spec_priority(*alert_type),
    {
        match alert_type {
            AlertType::LongSetupConfirmed => 10,
            AlertType::ShortSetupConfirmed => 10,
            AlertType::AccumulationDetected => 7,
            AlertType::DistributionDetected => 7,
            AlertType::PumpDetected => 5,
            AlertType::DumpDetected => 5,
        }
    }

    /// Enqueues an alert after every pending alert of the same or higher
    /// priority.
    pub fn push(&mut self, alert: Alert)
        requires
            old(self).wf(),
        ensures
            final(self).wf(),
            final(self).queue@ == old(self).queue@.insert(
                insert_pos(old(self).queue@, spec_priority(alert.alert_type)),
                alert,
            ),
            final(self).queue@.len() == old(self).queue@.len() + 1,
    {
        let ghost qv = self.queue@;
        let pr = Self::get_priority(&alert.alert_type);
        let n = self.queue.len();
        let mut p: usize = 0;
        while p < n && Self::get_priority(&self.queue[p].alert_type) >= pr
            invariant
                0 <= p <= n == qv.len(),
                self.queue@ == qv,
                pr == spec_priority(alert.alert_type),
                forall|j: int| 0 <= j < p ==> spec_priority(#[trigger] qv[j].alert_type) >= pr,
            decreases n - p,
        {
            p = p + 1;
        }
        proof {
            lemma_insert_pos_is(qv, pr as int, p as int);
        }
        self.queue.insert(p, alert);
        proof {
            let nv = self.queue@;
            assert forall|i: int, j: int| 0 <= i <= j < nv.len() implies spec_priority(
                #[trigger] nv[i].alert_type,
            ) >= spec_priority(#[trigger] nv[j].alert_type) by {
                assert(forall|q: int|
                    0 <= q < nv.len() ==> nv[q] == if q < p {
                        qv[q]
                    } else if q == p {
                        alert
                    } else {
                        qv[q - 1]
                    });
            }
        }
    }

    /// Dequeues the front alert: one of the highest priority, the earliest
    /// among those.
    pub fn pop(&mut self) -> (r: Option<Alert>)
        requires
            old(self).wf(),
        ensures
            final(self).wf(),
            match r {
                None => old(self).queue@.len() == 0 && final(self).queue@
                    == old(self).queue@,
                Some(a) => old(self).queue@.len() > 0 && a == old(self).queue@[0]
                    && final(self).queue@ == old(self).queue@.drop_first() && forall|i: int|
                    0 <= i < old(self).queue@.len() ==> spec_priority(a.alert_type)
                        >= spec_priority(#[trigger] old(self).queue@[i].alert_type),
            },
    {
        if self.queue.len() == 0 {
            None
        } else {
            let a = self.queue.remove(0);
            Some(a)
        }
    }

    pub fn len(&self) -> (n: usize)
        ensures
            n == self.queue@.len(),
    {
        self.queue.len()
    }

    pub fn is_empty(&self) -> (b: bool)
        ensures
            b == (self.queue@.len() == 0),
    {
        self.queue.len() == 0
    }
}

} // verus!
