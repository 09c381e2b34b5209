//! Dynamic per-symbol subscription management.
//!
//! The engine publishes a Tier1 symbol list on every rescore.  This module
//! decides which per-symbol trade feeds to start and which to cancel — the
//! symmetric difference against the currently active set — and tracks the
//! active set itself.  Running the tasks, and the reconnect backoff they
//! use, is the caller's business; [`next_reconnect_delay`] supplies the
//! backoff policy.

use vstd::prelude::*;
use crate::config::WebSocketConfig;

verus! {

/// Whether some string of the list reads `s`.
pub open spec fn seq_has(v: Seq<String>, s: Seq<char>) -> bool {
    exists|i: int| 0 <= i < v.len() && v[i]@ == s
}

/// The strings of `a` that do not occur in `b`, in order.
pub open spec fn diff_views(a: Seq<String>, b: Seq<String>) -> Seq<String>
    decreases a.len(),
{
    if a.len() == 0 {
        Seq::empty()
    } else {
        let rest = diff_views(a.drop_last(), b);
        if seq_has(b, a.last()@) {
            rest
        } else {
            rest.push(a.last())
        }
    }
}

/// Index of the first list entry reading `s`, or the length.
pub open spec fn first_str(v: Seq<String>, s: Seq<char>) -> int
    decreases v.len(),
{
    if v.len() == 0 {
        0
    } else if v[0]@ == s {
        0
    } else {
        1 + first_str(v.drop_first(), s)
    }
}

pub(crate) proof fn lemma_first_str_is(v: Seq<String>, s: Seq<char>, i: int)
    requires
        0 <= i <= v.len(),
        forall|j: int| 0 <= j < i ==> (#[trigger] v[j])@ != s,
        i < v.len() ==> v[i]@ == s,
    ensures
        first_str(v, s) == i,
    decreases i,
{
    if v.len() == 0 {
    } else if i == 0 {
    } else {
        lemma_first_str_is(v.drop_first(), s, i - 1);
    }
}

/// Whether any of the first `n` entries reads `s`.
fn vec_has_str(v: &Vec<String>, s: &String) -> (r: bool)
    ensures
        r == seq_has(v@, s@),
{
    let n = v.len();
    let mut i: usize = 0;
    while i < n
        invariant
            0 <= i <= n == v@.len(),
            forall|j: int| 0 <= j < i ==> (#[trigger] v@[j])@ != s@,
        decreases n - i,
    {
        if v[i] == *s {
            return true;
        }
        i = i + 1;
    }
    false
}

/// What one Tier1 update asks for: feeds to start and feeds to cancel.
#[derive(Debug)]
pub struct SubscriptionPlan {
    pub to_start: Vec<String>,
    pub to_stop: Vec<String>,
}

/// The set of symbols with an active trade feed.
pub struct SubscriptionSet {
    pub active: Vec<String>,
}

impl SubscriptionSet {
    pub fn new() -> (s: SubscriptionSet)
        ensures
            s.active@.len() == 0,
    {
        SubscriptionSet { active: Vec::new() }
    }

    /// How many feeds are active.
    pub fn active_count(&self) -> (n: usize)
        ensures
            n == self.active@.len(),
    {
        self.active.len()
    }

    /// Records a newly started feed; subscribing to an already-active
    /// symbol changes nothing.
    pub fn subscribe(&mut self, symbol: String) -> (added: bool)
        ensures
            added == !seq_has(old(self).active@, symbol@),
            added ==> final(self).active@ == old(self).active@.push(symbol),
            !added ==> final(self).active@ == old(self).active@,
    {
        if vec_has_str(&self.active, &symbol) {
            return false;
        }
        self.active.push(symbol);
        true
    }

    /// Removes a cancelled feed; unsubscribing an inactive symbol changes
    /// nothing.
    pub fn unsubscribe(&mut self, symbol: &String) -> (removed: bool)
        ensures
            removed == seq_has(old(self).active@, symbol@),
            removed ==> final(self).active@ == old(self).active@.remove(
                first_str(old(self).active@, symbol@),
            ),
            !removed ==> final(self).active@ == old(self).active@,
    {
        let n = self.active.len();
        let mut i: usize = 0;
        while i < n
            invariant
                0 <= i <= n == self.active@.len(),
                self.active@ == old(self).active@,
                forall|j: int| 0 <= j < i ==> (#[trigger] self.active@[j])@ != symbol@,
            decreases n - i,
        {
            if self.active[i] == *symbol {
                proof {
                    lemma_first_str_is(self.active@, symbol@, i as int);
                    assert(seq_has(old(self).active@, symbol@));
                }
                self.active.remove(i);
                return true;
            }
            i = i + 1;
        }
        proof {
            if seq_has(old(self).active@, symbol@) {
                let w = choose|k: int|
                    0 <= k < old(self).active@.len() && old(self).active@[k]@ == symbol@;
                assert((self.active@[w])@ != symbol@);
            }
        }
        false
    }

    /// The symmetric difference against a new Tier1 list: active symbols no
    /// longer wanted are stopped, wanted symbols not yet active are started.
    pub fn plan_update(&self, tier1: &Vec<String>) -> (p: SubscriptionPlan)
        ensures
            p.to_stop@ == diff_views(self.active@, tier1@),
            p.to_start@ == diff_views(tier1@, self.active@),
    {
        let to_stop = diff_of(&self.active, tier1);
        let to_start = diff_of(tier1, &self.active);
        SubscriptionPlan { to_start, to_stop }
    }
}

/// Clones the strings of `a` that do not occur in `b`, in order.
fn diff_of(a: &Vec<String>, b: &Vec<String>) -> (r: Vec<String>)
    ensures
        r@ == diff_views(a@, b@),
{
    let mut out: Vec<String> = Vec::new();
    let n = a.len();
    let mut i: usize = 0;
    while i < n
        invariant
            0 <= i <= n == a@.len(),
            out@ == diff_views(a@.take(i as int), b@),
        decreases n - i,
    {
        proof {
            assert(a@.take(i + 1).drop_last() =~= a@.take(i as int));
            assert(a@.take(i + 1).last() == a@[i as int]);
        }
        if !vec_has_str(b, &a[i]) {
            out.push(a[i].clone());
        }
        i = i + 1;
    }
    proof {
        assert(a@.take(a@.len() as int) =~= a@);
    }
    out
}

/// The exponential reconnect backoff: the delay doubles on each failure and
/// is capped at the configured maximum.
pub open spec fn spec_next_delay(cur: int, max: int) -> int {
    if 2 * cur <= max {
        2 * cur
    } else {
        max
    }
}

/// Next reconnect delay after a failure.
pub fn next_reconnect_delay(cur: u64, max: u64) -> (r: u64)
    ensures
        r == spec_next_delay(cur as int, max as int),
{
    if cur <= max / 2 {
        let d = cur * 2;
        if d <= max {
            d
        } else {
            max
        }
    } else {
        max
    }
}

/// Holds the endpoint a market-stream connection is made to; the connection
/// loops themselves live outside the library.
pub struct BinanceStreamManager {
    pub base_url: String,
    pub ws_config: WebSocketConfig,
}

impl BinanceStreamManager {
    pub fn new(base_url: String, ws_config: WebSocketConfig) -> (m: BinanceStreamManager)
        ensures
            m.base_url@ == base_url@,
            m.ws_config == ws_config,
    {
        BinanceStreamManager { base_url, ws_config }
    }
}

} // verus!
