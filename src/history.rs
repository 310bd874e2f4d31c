//! Bounded, time-ordered histories of `(timestamp, value)` points.
//!
//! Timestamps are milliseconds on a monotonic clock. A history is evicted
//! in two steps after each append: points older than the age cutoff leave
//! from the front, then the oldest leave until the count bound holds.

use vstd::prelude::*;
use std::collections::VecDeque;

verus! {

/// Timestamps never decrease from front to back.
pub open spec fn chronological<T>(h: Seq<(u64, T)>) -> bool {
    forall|i: int, j: int| 0 <= i <= j < h.len() ==> #[trigger] h[i].0 <= #[trigger] h[j].0
}

/// No point is more than `duration` older than `now`.
pub open spec fn within_age<T>(h: Seq<(u64, T)>, now: int, duration: int) -> bool {
    forall|i: int| 0 <= i < h.len() ==> now - #[trigger] h[i].0 <= duration
}

/// A well-formed history: chronological, at most `max` points, and none more
/// than `duration` older than the newest.
pub open spec fn bounded_history<T>(h: Seq<(u64, T)>, max: nat, duration: nat) -> bool {
    &&& chronological(h)
    &&& h.len() <= max
    &&& h.len() > 0 ==> within_age(h, h.last().0 as int, duration as int)
}

/// The number of leading points older than `cutoff`.
pub open spec fn stale_count<T>(h: Seq<(u64, T)>, cutoff: int) -> nat
    decreases h.len(),
{
    if h.len() > 0 && h[0].0 < cutoff {
        1 + stale_count(h.drop_first(), cutoff)
    } else {
        0
    }
}

/// The history without its leading points older than `cutoff`.
pub open spec fn drop_stale<T>(h: Seq<(u64, T)>, cutoff: int) -> Seq<(u64, T)> {
    h.skip(stale_count(h, cutoff) as int)
}

/// The newest `max` points (all of them if there are fewer).
pub open spec fn keep_newest<T>(h: Seq<T>, max: nat) -> Seq<T> {
    if h.len() > max {
        h.skip(h.len() - max)
    } else {
        h
    }
}

/// The age cutoff for a point stamped `now`.
pub open spec fn cutoff_for(now: u64, duration: u64) -> int {
    if now >= duration {
        now - duration
    } else {
        0
    }
}

/// The timestamp a new point gets: the clock reading, or the newest point's
/// timestamp if the clock reads earlier than that.
pub open spec fn stamp_for<T>(h: Seq<(u64, T)>, now: u64) -> u64 {
    if h.len() > 0 && now < h.last().0 {
        h.last().0
    } else {
        now
    }
}

/// The history after appending `value` at `now` and evicting.
pub open spec fn appended<T>(h: Seq<(u64, T)>, now: u64, value: T, max: nat, duration: u64) -> Seq<
    (u64, T),
> {
    let t = stamp_for(h, now);
    keep_newest(drop_stale(h.push((t, value)), cutoff_for(t, duration)), max)
}

pub proof fn lemma_stale_count<T>(h: Seq<(u64, T)>, cutoff: int)
    ensures
        stale_count(h, cutoff) <= h.len(),
        stale_count(h, cutoff) < h.len() ==> h[stale_count(h, cutoff) as int].0 >= cutoff,
    decreases h.len(),
{
    if h.len() > 0 && h[0].0 < cutoff {
        lemma_stale_count(h.drop_first(), cutoff);
        let k = stale_count(h.drop_first(), cutoff);
        if k < h.drop_first().len() {
            assert(h[k + 1 as int] == h.drop_first()[k as int]);
        }
    }
}

/// Appending at `stamp_for` and evicting keeps a history bounded, and leaves
/// no point older than the cutoff of the new point.
pub proof fn lemma_appended_bounded<T>(h: Seq<(u64, T)>, now: u64, value: T, max: nat, duration: u64)
    requires
        bounded_history(h, max, duration as nat),
    ensures
        bounded_history(appended(h, now, value, max, duration), max, duration as nat),
        within_age(appended(h, now, value, max, duration), stamp_for(h, now) as int, duration as int),
{
    let t = stamp_for(h, now);
    let p = h.push((t, value));
    let c = cutoff_for(t, duration);
    assert(chronological(p)) by {
        assert forall|i: int, j: int| 0 <= i <= j < p.len() implies #[trigger] p[i].0 <= #[trigger] p[j].0 by {
            if j == h.len() {
                if i < h.len() {
                    assert(h[i].0 <= h[h.len() - 1].0);
                }
            } else {
                assert(p[i] == h[i] && p[j] == h[j]);
            }
        }
    }
    lemma_stale_count(p, c);
    let k = stale_count(p, c);
    let d = drop_stale(p, c);
    assert(k < p.len()) by {
        if k >= p.len() {
            assert(k == p.len());
        }
        assert(p[p.len() - 1].0 == t);
        if k == p.len() {
            // the new point itself is never stale
            lemma_last_not_stale(p, c, t);
        }
    }
    assert(within_age(d, t as int, duration as int)) by {
        assert forall|i: int| 0 <= i < d.len() implies t - #[trigger] d[i].0 <= duration by {
            assert(d[i] == p[k + i]);
            assert(p[k as int].0 <= p[k + i].0);
        }
    }
    let r = keep_newest(d, max);
    let s = if d.len() > max { d.len() - max } else { 0 };
    assert(r =~= d.skip(s as int));
    assert(r.len() > 0 ==> r.last() == p.last()) by {
        if r.len() > 0 {
            assert(r.last() == d[d.len() - 1]);
        }
    }
    assert forall|i: int| 0 <= i < r.len() implies #[trigger] r[i] == p[k + s + i] by {}
    assert(chronological(r)) by {
        assert forall|i: int, j: int| 0 <= i <= j < r.len() implies #[trigger] r[i].0 <= #[trigger] r[j].0 by {
            assert(r[i] == p[k + s + i]);
            assert(r[j] == p[k + s + j]);
        }
    }
    assert(within_age(r, t as int, duration as int)) by {
        assert forall|i: int| 0 <= i < r.len() implies t - #[trigger] r[i].0 <= duration by {
            assert(r[i] == d[s + i]);
        }
    }
}

proof fn lemma_last_not_stale<T>(p: Seq<(u64, T)>, c: int, t: u64)
    requires
        p.len() > 0,
        p[p.len() - 1].0 == t,
        c <= t,
    ensures
        stale_count(p, c) < p.len(),
    decreases p.len(),
{
    if p.len() > 0 && p[0].0 < c {
        let q = p.drop_first();
        assert(q.len() > 0);
        assert(q[q.len() - 1] == p[p.len() - 1]);
        lemma_last_not_stale(q, c, t);
    }
}

/// Drops the leading points older than `cutoff`, then the oldest points
/// until at most `max` remain.
pub fn evict<T>(h: &mut VecDeque<(u64, T)>, cutoff: u64, max: usize)
    ensures
        final(h)@ == keep_newest(drop_stale(old(h)@, cutoff as int), max as nat),
{
    let ghost start = h@;
    let ghost mut k: int = 0;
    while h.len() > 0 && h[0].0 < cutoff
        invariant
            0 <= k <= start.len(),
            h@ == start.skip(k),
            stale_count(start, cutoff as int) == k + stale_count(h@, cutoff as int),
        decreases h@.len(),
    {
        proof {
            assert(h@.drop_first() =~= start.skip(k + 1));
        }
        h.pop_front();
        proof {
            k = k + 1;
        }
    }
    let ghost middle = h@;
    assert(middle == drop_stale(start, cutoff as int));
    while h.len() > max
        invariant
            keep_newest(h@, max as nat) == keep_newest(middle, max as nat),
        decreases h@.len(),
    {
        let ghost before = h@;
        h.pop_front();
        assert(keep_newest(h@, max as nat) =~= keep_newest(before, max as nat));
    }
}

/// Dropping the points older than the cutoff for `now` keeps a history
/// bounded (the count bound then has nothing to drop) and leaves no point more
/// than `duration` older than `now`.
pub proof fn lemma_expired_bounded<T>(h: Seq<(u64, T)>, now: u64, max: nat, duration: u64)
    requires
        bounded_history(h, max, duration as nat),
    ensures
        keep_newest(drop_stale(h, cutoff_for(now, duration)), max) == drop_stale(
            h,
            cutoff_for(now, duration),
        ),
        bounded_history(drop_stale(h, cutoff_for(now, duration)), max, duration as nat),
        within_age(drop_stale(h, cutoff_for(now, duration)), now as int, duration as int),
{
    let c = cutoff_for(now, duration);
    lemma_stale_count(h, c);
    let k = stale_count(h, c);
    let d = drop_stale(h, c);
    assert forall|i: int| 0 <= i < d.len() implies #[trigger] d[i] == h[k + i] by {}
    assert(chronological(d)) by {
        assert forall|i: int, j: int| 0 <= i <= j < d.len() implies #[trigger] d[i].0 <= #[trigger] d[j].0 by {
            assert(d[i] == h[k + i] && d[j] == h[k + j]);
        }
    }
    assert(within_age(d, now as int, duration as int)) by {
        assert forall|i: int| 0 <= i < d.len() implies now - #[trigger] d[i].0 <= duration by {
            assert(d[i] == h[k + i]);
            assert(h[k as int].0 <= h[k + i].0);
        }
    }
    if d.len() > 0 {
        assert(d.last() == h.last());
        assert(within_age(d, d.last().0 as int, duration as int)) by {
            assert forall|i: int| 0 <= i < d.len() implies d.last().0 - #[trigger] d[i].0 <= duration by {
                assert(d[i] == h[k + i]);
                assert(h.last() == h[h.len() - 1]);
            }
        }
    }
}

} // verus!
