use vstd::prelude::*;
use std::collections::VecDeque;

verus! {

/// Length of the rate-limit window: one minute, in nanoseconds.
pub const WINDOW_NANOS: u64 = 60_000_000_000;

/// Whether a request admitted at `t` has left the window by `now`.
pub open spec fn expired(t: u64, now: u64) -> bool {
    t + WINDOW_NANOS <= now
}

/// The window after dropping, from its front, the requests that have left
/// it by `now`; it stops at the first one still inside.
pub open spec fn prune(s: Seq<u64>, now: u64) -> Seq<u64>
    decreases s.len(),
{
    if s.len() > 0 && expired(s[0], now) {
        prune(s.drop_first(), now)
    } else {
        s
    }
}

/// Whether a request at `now` is admitted under a per-minute limit.
pub open spec fn admits(s: Seq<u64>, now: u64, limit: nat) -> bool {
    prune(s, now).len() < limit
}

/// The window after a request at `now`: pruned, and with `now` appended
/// when the request is admitted.
pub open spec fn after_request(s: Seq<u64>, now: u64, limit: nat) -> Seq<u64> {
    if admits(s, now, limit) {
        prune(s, now).push(now)
    } else {
        prune(s, now)
    }
}

/// The times, in nanoseconds, of the requests a client was admitted in the
/// last minute, oldest first.
pub struct RateWindow {
    stamps: VecDeque<u64>,
}

impl View for RateWindow {
    type V = Seq<u64>;

    closed spec fn view(&self) -> Seq<u64> {
        self.stamps@
    }
}

impl RateWindow {
    /// A window with no request in it.
    pub fn new() -> (r: Self)
        ensures
            r@ == Seq::<u64>::empty(),
    {
        RateWindow { stamps: VecDeque::new() }
    }

    /// Admits a request at `now` when fewer than `limit` requests remain in
    /// the window after the expired ones are dropped from its front.
    pub fn try_admit(&mut self, now: u64, limit: usize) -> (admitted: bool)
        ensures
            admitted == admits(old(self)@, now, limit as nat),
            final(self)@ == after_request(old(self)@, now, limit as nat),
    {
        broadcast use vstd::std_specs::vecdeque::axiom_spec_len;

        while self.stamps.len() > 0 && now >= WINDOW_NANOS && self.stamps[0] <= now - WINDOW_NANOS
            invariant
                prune(old(self)@, now) == prune(self@, now),
            decreases self@.len(),
        {
            let ghost before = self@;
            self.stamps.pop_front();
            assert(self@ =~= before.drop_first());
        }
        assert(prune(self@, now) == self@);
        if self.stamps.len() >= limit {
            false
        } else {
            self.stamps.push_back(now);
            true
        }
    }
}



/// Whether the times never decrease.
pub open spec fn sorted(s: Seq<u64>) -> bool {
    forall|i: int, j: int| 0 <= i <= j < s.len() ==> s[i] <= s[j]
}

/// The times that have not left the window by `now`, in order.
pub open spec fn live(s: Seq<u64>, now: u64) -> Seq<u64>
    decreases s.len(),
{
    if s.len() == 0 {
        Seq::empty()
    } else if expired(s[0], now) {
        live(s.drop_first(), now)
    } else {
        seq![s[0]] + live(s.drop_first(), now)
    }
}

/// The window after requests at the given times, from an empty window.
pub open spec fn window_after(times: Seq<u64>, limit: nat) -> Seq<u64>
    decreases times.len(),
{
    if times.len() == 0 {
        Seq::empty()
    } else {
        after_request(window_after(times.drop_last(), limit), times.last(), limit)
    }
}

/// The times of the requests that were admitted, from an empty window.
pub open spec fn admitted_times(times: Seq<u64>, limit: nat) -> Seq<u64>
    decreases times.len(),
{
    if times.len() == 0 {
        Seq::empty()
    } else {
        let prev = admitted_times(times.drop_last(), limit);
        if admits(window_after(times.drop_last(), limit), times.last(), limit) {
            prev.push(times.last())
        } else {
            prev
        }
    }
}

/// Law: a request never takes the window above the limit it had respected.
pub proof fn lemma_window_within_limit(s: Seq<u64>, now: u64, limit: nat)
    requires
        s.len() <= limit,
    ensures
        after_request(s, now, limit).len() <= limit,
{
    lemma_prune_suffix(s, now);
}

/// Pruning keeps a suffix of the window.
pub proof fn lemma_prune_suffix(s: Seq<u64>, now: u64)
    ensures
        prune(s, now).len() <= s.len(),
        prune(s, now) == s.subrange(s.len() - prune(s, now).len(), s.len() as int),
    decreases s.len(),
{
    if s.len() > 0 && expired(s[0], now) {
        lemma_prune_suffix(s.drop_first(), now);
        let p = prune(s.drop_first(), now);
        assert(s.drop_first().subrange(s.len() - 1 - p.len(), s.len() - 1) =~= s.subrange(
            s.len() - p.len(),
            s.len() as int,
        ));
    } else {
        assert(s.subrange(0, s.len() as int) =~= s);
    }
}

proof fn lemma_live_push(s: Seq<u64>, t: u64, now: u64)
    ensures
        live(s.push(t), now) == live(s, now) + (if expired(t, now) {
            Seq::<u64>::empty()
        } else {
            seq![t]
        }),
    decreases s.len(),
{
    if s.len() == 0 {
        assert(seq![t].drop_first() =~= Seq::<u64>::empty());
        assert(s.push(t) =~= seq![t]);
        assert(live(Seq::<u64>::empty(), now) == Seq::<u64>::empty());
        assert(seq![t] + Seq::<u64>::empty() =~= seq![t]);
        assert(Seq::<u64>::empty() + seq![t] =~= seq![t]);
        assert(Seq::<u64>::empty() + Seq::<u64>::empty() =~= Seq::<u64>::empty());
    } else {
        assert(s.push(t).drop_first() =~= s.drop_first().push(t));
        lemma_live_push(s.drop_first(), t, now);
        assert(s.push(t)[0] == s[0]);
        if expired(s[0], now) {
        } else {
            let tail = if expired(t, now) {
                Seq::<u64>::empty()
            } else {
                seq![t]
            };
            assert(seq![s[0]] + (live(s.drop_first(), now) + tail) =~= (seq![s[0]] + live(
                s.drop_first(),
                now,
            )) + tail);
        }
    }
}

proof fn lemma_live_all(s: Seq<u64>, now: u64)
    requires
        forall|i: int| 0 <= i < s.len() ==> !expired(#[trigger] s[i], now),
    ensures
        live(s, now) == s,
    decreases s.len(),
{
    if s.len() > 0 {
        lemma_live_all(s.drop_first(), now);
        assert(!expired(s[0], now));
        assert(seq![s[0]] + s.drop_first() =~= s);
    }
}

/// Of a sorted window, pruning keeps exactly the times still inside.
proof fn lemma_prune_sorted(s: Seq<u64>, now: u64)
    requires
        sorted(s),
    ensures
        prune(s, now) == live(s, now),
    decreases s.len(),
{
    if s.len() > 0 {
        assert(sorted(s.drop_first()));
        if expired(s[0], now) {
            lemma_prune_sorted(s.drop_first(), now);
        } else {
            assert forall|i: int| 0 <= i < s.len() implies !expired(#[trigger] s[i], now) by {
                assert(s[0] <= s[i]);
            }
            lemma_live_all(s, now);
        }
    }
}

proof fn lemma_live_later(s: Seq<u64>, a: u64, b: u64)
    requires
        a <= b,
    ensures
        live(live(s, a), b) == live(s, b),
    decreases s.len(),
{
    if s.len() > 0 {
        lemma_live_later(s.drop_first(), a, b);
        if !expired(s[0], a) {
            let l = live(s, a);
            assert(l == seq![s[0]] + live(s.drop_first(), a));
            assert(l[0] == s[0]);
            assert(l.drop_first() =~= live(s.drop_first(), a));
        }
    }
}

/// Law: when requests come at times that never decrease, the window after
/// them holds exactly the admitted times that lie within one minute of the
/// latest request, and there are never more of those than the limit.
pub proof fn lemma_rate_limit(times: Seq<u64>, limit: nat)
    requires
        sorted(times),
        times.len() > 0,
    ensures
        window_after(times, limit) == live(admitted_times(times, limit), times.last()),
        live(admitted_times(times, limit), times.last()).len() <= limit,
        sorted(admitted_times(times, limit)),
        forall|i: int|
            0 <= i < admitted_times(times, limit).len() ==> #[trigger] admitted_times(
                times,
                limit,
            )[i] <= times.last(),
    decreases times.len(),
{
    let t = times.last();
    let init = times.drop_last();
    let empty = Seq::<u64>::empty();
    if init.len() == 0 {
        assert(window_after(init, limit) == empty);
        assert(prune(empty, t) == empty);
        assert(live(empty, t) == empty);
        assert(admitted_times(init, limit) == empty);
        lemma_live_push(empty, t, t);
        assert(empty.push(t) =~= seq![t]);
        assert(empty + seq![t] =~= seq![t]);
    } else {
        assert(sorted(init));
        lemma_rate_limit(init, limit);
        let last = init.last();
        assert(last <= t);
        let a = admitted_times(init, limit);
        let w = window_after(init, limit);
        lemma_prune_suffix(a, last);
        // the window is a suffix of the sorted admitted times
        assert(w == live(a, last));
        lemma_prune_sorted(a, last);
        let k = a.len() - prune(a, last).len();
        assert(sorted(w)) by {
            assert forall|i: int, j: int| 0 <= i <= j < w.len() implies w[i] <= w[j] by {
                assert(w[i] == a[k + i]);
                assert(w[j] == a[k + j]);
            }
        }
        lemma_prune_sorted(w, t);
        lemma_live_later(a, last, t);
        assert(prune(w, t) == live(a, t));
        lemma_window_within_limit(w, t, limit);
        if admits(w, t, limit) {
            lemma_live_push(a, t, t);
            assert(live(a, t) + seq![t] =~= live(a, t).push(t));
            assert(admitted_times(times, limit) == a.push(t));
            assert forall|i: int, j: int| 0 <= i <= j < a.push(t).len() implies a.push(t)[i]
                <= a.push(t)[j] by {
                if j == a.len() {
                    if i < a.len() {
                        assert(a[i] <= last);
                    }
                }
            }
            assert forall|i: int| 0 <= i < a.push(t).len() implies #[trigger] a.push(t)[i] <= t by {
                if i < a.len() {
                    assert(a[i] <= last);
                }
            }
        } else {
            assert(admitted_times(times, limit) == a);
            assert forall|i: int| 0 <= i < a.len() implies #[trigger] a[i] <= t by {
                assert(a[i] <= last);
            }
        }
    }
}

/// Law: a request made a minute (60 seconds) or more after every request in
/// the window finds the window empty: it is admitted whenever the limit is
/// not zero, and then it alone is in the window.
pub proof fn lemma_expired_window_admits(s: Seq<u64>, now: u64, limit: nat)
    requires
        forall|i: int| 0 <= i < s.len() ==> #[trigger] s[i] + 60_000_000_000 <= now,
    ensures
        admits(s, now, limit) == (limit > 0),
        after_request(s, now, limit) == if limit > 0 {
            seq![now]
        } else {
            Seq::<u64>::empty()
        },
    decreases s.len(),
{
    if s.len() > 0 {
        assert(s[0] + 60_000_000_000 <= now);
        assert forall|i: int| 0 <= i < s.drop_first().len() implies #[trigger] s.drop_first()[i]
            + 60_000_000_000 <= now by {
            assert(s.drop_first()[i] == s[i + 1]);
        }
        lemma_expired_window_admits(s.drop_first(), now, limit);
    } else {
        assert(Seq::<u64>::empty().push(now) =~= seq![now]);
    }
}

/// Law: when every request in the window was made less than a minute (60
/// seconds) before `now`, all of them count: a request is admitted exactly
/// when there are fewer of them than the limit, and is then added after
/// them.
pub proof fn lemma_recent_window_counts(s: Seq<u64>, now: u64, limit: nat)
    requires
        forall|i: int| 0 <= i < s.len() ==> now < #[trigger] s[i] + 60_000_000_000,
    ensures
        admits(s, now, limit) == (s.len() < limit),
        after_request(s, now, limit) == if s.len() < limit {
            s.push(now)
        } else {
            s
        },
{
    if s.len() > 0 {
        assert(now < s[0] + 60_000_000_000);
    }
}

/// Law: with a limit of one request a minute, a request after an admitted
/// one at `first` is admitted exactly when it comes 60 seconds or more
/// later.
pub proof fn lemma_one_per_minute(first: u64, now: u64)
    ensures
        admits(seq![first], now, 1) == (first + 60_000_000_000 <= now),
{
    if first + 60_000_000_000 <= now {
        lemma_expired_window_admits(seq![first], now, 1);
    } else {
        lemma_recent_window_counts(seq![first], now, 1);
    }
}

} // verus!
