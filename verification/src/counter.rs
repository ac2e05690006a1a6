//! The shared counter store behind the rate limiter: keyed counters with an
//! expiry, incremented atomically. The store serializes operations per key —
//! concurrent requests reach it as some sequence of the atomic step modeled
//! here, so no interleaving can lose or double an update.

use vstd::prelude::*;

use crate::text::str_eq;

verus! {

/// One keyed counter with its window expiry (seconds since the epoch).
pub struct CounterEntry {
    pub key: String,
    pub count: u32,
    pub expires_at: u64,
}

/// The first entry stored under `key`, if any.
pub open spec fn find_counter(entries: Seq<CounterEntry>, key: Seq<char>) -> Option<CounterEntry>
    decreases entries.len(),
{
    if entries.len() == 0 {
        None
    } else if entries[0].key@ == key {
        Some(entries[0])
    } else {
        find_counter(entries.drop_first(), key)
    }
}

/// The count the store reports for `key` at time `now`: an absent or expired
/// counter reads as zero.
pub open spec fn spec_live_count(entries: Seq<CounterEntry>, key: Seq<char>, now: u64) -> nat {
    match find_counter(entries, key) {
        Some(e) => if e.expires_at > now {
            e.count as nat
        } else {
            0
        },
        None => 0,
    }
}

/// What one atomic check-and-increment step decided.
#[derive(Clone, Copy, Debug, PartialEq, Eq, Structural)]
pub enum AdmitDecision {
    /// The request is within quota; the payload is the count after the
    /// increment.
    Admitted(u32),
    /// The quota was already exhausted; nothing was counted.
    Limited,
    /// The store could not be reached; nothing was counted.
    Unavailable,
}

/// The counter store, reachable while `healthy`.
pub struct CounterStore {
    pub entries: Vec<CounterEntry>,
    pub healthy: bool,
}

proof fn lemma_find_at(entries: Seq<CounterEntry>, key: Seq<char>, i: int)
    requires
        0 <= i < entries.len(),
        entries[i].key@ == key,
        forall|j: int| 0 <= j < i ==> entries[j].key@ != key,
    ensures
        find_counter(entries, key) == Some(entries[i]),
    decreases i,
{
    if i > 0 {
        lemma_find_at(entries.drop_first(), key, i - 1);
    }
}

proof fn lemma_find_none(entries: Seq<CounterEntry>, key: Seq<char>)
    requires
        forall|j: int| 0 <= j < entries.len() ==> entries[j].key@ != key,
    ensures
        find_counter(entries, key) is None,
    decreases entries.len(),
{
    if entries.len() > 0 {
        lemma_find_none(entries.drop_first(), key);
    }
}

proof fn lemma_find_update_other(entries: Seq<CounterEntry>, i: int, e2: CounterEntry, k: Seq<char>)
    requires
        0 <= i < entries.len(),
        entries[i].key@ == e2.key@,
        k != e2.key@,
    ensures
        find_counter(entries.update(i, e2), k) == find_counter(entries, k),
    decreases i,
{
    if i == 0 {
        assert(entries.update(i, e2).drop_first() =~= entries.drop_first());
    } else {
        assert(entries.update(i, e2).drop_first() =~= entries.drop_first().update(i - 1, e2));
        lemma_find_update_other(entries.drop_first(), i - 1, e2, k);
    }
}

proof fn lemma_find_update_same(entries: Seq<CounterEntry>, i: int, e2: CounterEntry)
    requires
        0 <= i < entries.len(),
        entries[i].key@ == e2.key@,
        forall|j: int| 0 <= j < i ==> entries[j].key@ != e2.key@,
    ensures
        find_counter(entries.update(i, e2), e2.key@) == Some(e2),
    decreases i,
{
    if i > 0 {
        assert(entries.update(i, e2).drop_first() =~= entries.drop_first().update(i - 1, e2));
        lemma_find_update_same(entries.drop_first(), i - 1, e2);
    }
}

proof fn lemma_find_push(entries: Seq<CounterEntry>, e: CounterEntry, k: Seq<char>)
    ensures
        find_counter(entries.push(e), k) == (if find_counter(entries, k) is Some {
            find_counter(entries, k)
        } else if e.key@ == k {
            Some(e)
        } else {
            None
        }),
    decreases entries.len(),
{
    if entries.len() > 0 {
        assert(entries.push(e)[0] == entries[0]);
        if entries[0].key@ == k {
            assert(find_counter(entries.push(e), k) == Some(entries[0]));
            assert(find_counter(entries, k) == Some(entries[0]));
        } else {
            assert(entries.push(e).drop_first() =~= entries.drop_first().push(e));
            lemma_find_push(entries.drop_first(), e, k);
            assert(find_counter(entries.push(e), k) == find_counter(
                entries.drop_first().push(e),
                k,
            ));
            assert(find_counter(entries, k) == find_counter(entries.drop_first(), k));
        }
    } else {
        assert(entries.push(e).len() == 1);
        assert(entries.push(e)[0] == e);
        assert(entries.push(e).drop_first() =~= Seq::<CounterEntry>::empty());
        assert(find_counter(Seq::<CounterEntry>::empty(), k) is None);
        if e.key@ == k {
            assert(find_counter(entries.push(e), k) == Some(e));
        } else {
            assert(find_counter(entries.push(e), k) is None);
        }
        assert(find_counter(entries, k) is None);
    }
}

/// How many of `n` serialized admission attempts succeed, starting from a
/// live count of `live`, all inside one window: each attempt follows
/// `try_admit`'s contract — admitted, with the count bumped by one, exactly
/// when the count is still under `max_requests`. The store serializes the
/// atomic step per key, so any concurrent interleaving of the attempts is
/// some such run.
pub open spec fn spec_admitted_in_run(live: nat, max_requests: u32, n: nat) -> nat
    decreases n,
{
    if n == 0 {
        0
    } else if live < max_requests {
        1 + spec_admitted_in_run(live + 1, max_requests, (n - 1) as nat)
    } else {
        spec_admitted_in_run(live, max_requests, (n - 1) as nat)
    }
}

/// The quota is exact: of `n` requests racing within one window against a
/// counter at `live`, exactly the first `max_requests - live` are admitted
/// and every further one is rejected — under any interleaving, since the
/// store serializes the step. Six rapid requests against a quota of five on
/// a fresh counter: five admitted, one rejected.
pub proof fn lemma_fixed_window_quota(live: nat, max_requests: u32, n: nat)
    ensures
        spec_admitted_in_run(live, max_requests, n) == if live >= max_requests {
            0nat
        } else if n <= max_requests - live {
            n
        } else {
            (max_requests - live) as nat
        },
    decreases n,
{
    if n > 0 {
        if live < max_requests {
            lemma_fixed_window_quota(live + 1, max_requests, (n - 1) as nat);
        } else {
            lemma_fixed_window_quota(live, max_requests, (n - 1) as nat);
        }
    }
}

/// Once the window has elapsed, the counter reads zero: the next admitted
/// request restarts it at one (by `try_admit`'s contract), never continuing
/// from the stale value.
pub proof fn lemma_window_reset(entries: Seq<CounterEntry>, key: Seq<char>, now: u64)
    requires
        find_counter(entries, key) matches Some(e) && e.expires_at <= now,
    ensures
        spec_live_count(entries, key, now) == 0,
{
}

impl CounterStore {
    /// Keys are unique, so each counter is one entry.
    pub open spec fn wf(self) -> bool {
        forall|i: int, j: int|
            0 <= i < j < self.entries@.len() ==> #[trigger] self.entries@[i].key@
                != #[trigger] self.entries@[j].key@
    }

    /// An empty, reachable counter store.
    pub fn new() -> (s: CounterStore)
        ensures
            s.wf(),
            s.healthy,
            s.entries@.len() == 0,
    {
        CounterStore { entries: Vec::new(), healthy: true }
    }

    /// The count the store reports for `key` at `now`.
    pub fn live_count(&self, key: &str, now: u64) -> (c: Result<u32, ()>)
        requires
            self.wf(),
        ensures
            c is Err <==> !self.healthy,
            c matches Ok(n) ==> n == spec_live_count(self.entries@, key@, now),
    {
        if !self.healthy {
            return Err(());
        }
        let mut i: usize = 0;
        while i < self.entries.len()
            invariant
                self.healthy,
                0 <= i <= self.entries@.len(),
                forall|j: int| 0 <= j < i ==> self.entries@[j].key@ != key@,
            decreases self.entries@.len() - i,
        {
            if str_eq(self.entries[i].key.as_str(), key) {
                proof {
                    lemma_find_at(self.entries@, key@, i as int);
                }
                let e = &self.entries[i];
                if e.expires_at > now {
                    return Ok(e.count);
                } else {
                    return Ok(0);
                }
            }
            i = i + 1;
        }
        proof {
            lemma_find_none(self.entries@, key@);
        }
        Ok(0)
    }

    /// The atomic check-and-increment the quota rests on: one serialized
    /// step that admits and counts the request when the live count for `key`
    /// is under `max_requests`, re-arming the window to `window_secs` from
    /// `now` (a fixed re-arming window, not a sliding log); refuses it,
    /// counting nothing, when the quota is exhausted. An expired counter
    /// restarts at one. Fails, counting nothing, if and only if the store is
    /// unreachable.
    pub fn try_admit(&mut self, key: &str, max_requests: u32, window_secs: u64, now: u64) -> (d:
        AdmitDecision)
        requires
            old(self).wf(),
            1 <= window_secs,
            now + window_secs <= u64::MAX,
        ensures
            final(self).wf(),
            final(self).healthy == old(self).healthy,
            d == AdmitDecision::Unavailable <==> !old(self).healthy,
            d == AdmitDecision::Unavailable || d == AdmitDecision::Limited ==> final(self).entries@
                == old(self).entries@,
            old(self).healthy ==> (d == AdmitDecision::Limited <==> spec_live_count(
                old(self).entries@,
                key@,
                now,
            ) >= max_requests),
            d matches AdmitDecision::Admitted(n) ==> {
                &&& n == spec_live_count(old(self).entries@, key@, now) + 1
                &&& spec_live_count(final(self).entries@, key@, now) == n
                &&& find_counter(final(self).entries@, key@) matches Some(e) && e.count == n
                    && e.expires_at == now + window_secs
                &&& forall|k2: Seq<char>|
                    k2 != key@ ==> #[trigger] find_counter(final(self).entries@, k2)
                        == find_counter(old(self).entries@, k2)
            },
    {
        if !self.healthy {
            return AdmitDecision::Unavailable;
        }
        let ghost entries0 = self.entries@;
        let mut i: usize = 0;
        while i < self.entries.len()
            invariant
                self.healthy,
                old(self).healthy,
                self.wf(),
                1 <= window_secs,
                now + window_secs <= u64::MAX,
                entries0 == old(self).entries@,
                self.entries@ == entries0,
                0 <= i <= self.entries@.len(),
                forall|j: int| 0 <= j < i ==> self.entries@[j].key@ != key@,
            decreases self.entries@.len() - i,
        {
            if str_eq(self.entries[i].key.as_str(), key) {
                proof {
                    lemma_find_at(self.entries@, key@, i as int);
                }
                let live: u32 = if self.entries[i].expires_at > now {
                    self.entries[i].count
                } else {
                    0
                };
                if live >= max_requests {
                    return AdmitDecision::Limited;
                }
                let entry = &mut self.entries[i];
                entry.count = live + 1;
                entry.expires_at = now + window_secs;
                proof {
                    let e2 = self.entries@[i as int];
                    assert(self.entries@ =~= entries0.update(i as int, e2));
                    lemma_find_update_same(entries0, i as int, e2);
                    assert forall|k2: Seq<char>| k2 != key@ implies #[trigger] find_counter(
                        self.entries@,
                        k2,
                    ) == find_counter(entries0, k2) by {
                        lemma_find_update_other(entries0, i as int, e2, k2);
                    }
                }
                return AdmitDecision::Admitted(live + 1);
            }
            i = i + 1;
        }
        proof {
            lemma_find_none(self.entries@, key@);
        }
        if max_requests == 0 {
            return AdmitDecision::Limited;
        }
        let fresh = CounterEntry { key: key.to_owned(), count: 1, expires_at: now + window_secs };
        self.entries.push(fresh);
        proof {
            lemma_find_push(entries0, self.entries@.last(), key@);
            assert forall|k2: Seq<char>| k2 != key@ implies #[trigger] find_counter(
                self.entries@,
                k2,
            ) == find_counter(entries0, k2) by {
                lemma_find_push(entries0, self.entries@.last(), k2);
            }
        }
        AdmitDecision::Admitted(1)
    }
}

} // verus!
