//! Sliding windows over points in time.

use vstd::prelude::*;

verus! {

/// `time` lies no more than `span` before `now`; a time after `now` counts as just passed.
pub open spec fn in_window(now: u128, time: u128, span: u128) -> bool {
    time >= now || now - time <= span
}

/// The times that lie no more than `span` before `now`, in their order.
pub open spec fn recent(times: Seq<u128>, now: u128, span: u128) -> Seq<u128> {
    times.filter(|time: u128| in_window(now, time, span))
}

/// Whether `time` lies no more than `span` before `now`.
pub fn within(now: u128, time: u128, span: u128) -> (result: bool)
    ensures
        result == in_window(now, time, span),
{
    now.saturating_sub(time) <= span
}

/// Adds `now` to `times` and drops what lies more than `span` before it.
pub fn note_time(times: &mut Vec<u128>, now: u128, span: u128)
    ensures
        final(times)@ == recent(old(times)@.push(now), now, span),
{
    times.push(now);
    let ghost all = times@;
    let ghost keep = |time: u128| in_window(now, time, span);
    let mut kept: Vec<u128> = Vec::new();
    let mut i: usize = 0;
    assert(all.take(0).filter(keep) == Seq::<u128>::empty()) by {
        reveal(Seq::filter);
    }
    while i < times.len()
        invariant
            i <= times@.len(),
            times@ == all,
            keep == (|time: u128| in_window(now, time, span)),
            kept@ == all.take(i as int).filter(keep),
        decreases times@.len() - i,
    {
        let time: u128 = times[i];
        proof {
            reveal(Seq::filter);
            assert(all.take(i + 1).drop_last() == all.take(i as int));
        }
        if within(now, time, span) {
            kept.push(time);
        }
        i += 1;
    }
    assert(all.take(i as int) == all);
    *times = kept;
}

/// The times kept in a window are times that were given, each within the span, and `now` stays as
/// the last of them.
pub proof fn lemma_recent(times: Seq<u128>, now: u128, span: u128)
    ensures
        recent(times.push(now), now, span) == recent(times, now, span).push(now),
        recent(times, now, span).len() <= times.len(),
        forall|i: int|
            0 <= i < recent(times, now, span).len() ==> in_window(
                now,
                #[trigger] recent(times, now, span)[i],
                span,
            ) && times.contains(recent(times, now, span)[i]),
    decreases times.len(),
{
    let keep = |time: u128| in_window(now, time, span);
    let kept = times.filter(keep);
    reveal(Seq::filter);
    assert(times.push(now).drop_last() == times);
    if times.len() > 0 {
        let front = times.drop_last();
        lemma_recent(front, now, span);
        assert forall|i: int| 0 <= i < kept.len() implies in_window(now, #[trigger] kept[i], span)
            && times.contains(kept[i]) by {
            if i < front.filter(keep).len() {
                assert(kept[i] == front.filter(keep)[i]);
                assert(front.contains(recent(front, now, span)[i]));
                let k = choose|k: int| 0 <= k < front.len() && front[k] == kept[i];
                assert(times[k] == kept[i]);
            } else {
                assert(kept[i] == times.last());
                assert(times[times.len() - 1] == kept[i]);
            }
        }
    }
}

} // verus!
