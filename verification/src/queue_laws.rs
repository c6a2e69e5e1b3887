//! What holds of the queue through every input.

use vstd::prelude::*;

use vstd::multiset::Multiset;

use crate::config::QueuePolicy;
use crate::queue;
use crate::queue::{
    EntryView, QueueInputView, QueueOutputView, QueueSettings, QueueView, Target,
};

verus! {

// ---- the surface -------------------------------------------------------------------------

/// The id that owns the surface.
pub open spec fn surface(q: QueueView) -> Option<u64> {
    match q.live {
        Some(e) => Some(e.id),
        None => None,
    }
}

/// Who owns the surface after the renderer has followed one output; none of it when the output
/// does not fit who owned it before. A fresh surface is shown only where there is none; only the
/// one there is morphs or closes.
pub open spec fn follow(owner: Option<u64>, o: QueueOutputView) -> Option<Option<u64>> {
    match o {
        QueueOutputView::Show { id, .. } => if owner is None {
            Some(Some(id))
        } else {
            None
        },
        QueueOutputView::Morph { id, .. } => if owner == Some(id) {
            Some(owner)
        } else {
            None
        },
        QueueOutputView::Close { id, .. } => if owner == Some(id) {
            Some(None)
        } else {
            None
        },
    }
}

/// Who owns the surface after the renderer has followed some outputs in order.
pub open spec fn replay(owner: Option<u64>, outs: Seq<QueueOutputView>) -> Option<Option<u64>>
    decreases outs.len(),
{
    if outs.len() == 0 {
        Some(owner)
    } else {
        match replay(owner, outs.drop_last()) {
            Some(s) => follow(s, outs.last()),
            None => None,
        }
    }
}

proof fn lemma_replay_one(owner: Option<u64>, a: QueueOutputView)
    ensures
        replay(owner, seq![a]) == follow(owner, a),
{
    assert(seq![a].drop_last() =~= Seq::empty());
    assert(replay(owner, Seq::empty()) == Some(owner));
}

proof fn lemma_replay_two(owner: Option<u64>, a: QueueOutputView, b: QueueOutputView)
    ensures
        replay(owner, seq![a, b]) == (match follow(owner, a) {
            Some(s) => follow(s, b),
            None => None,
        }),
{
    assert(seq![a, b].drop_last() =~= seq![a]);
    lemma_replay_one(owner, a);
}

proof fn lemma_replay_promotion(q: QueueView, now: u64, closing: QueueOutputView)
    requires
        q.live is Some,
        closing is Close,
        closing->Close_id == q.live->0.id,
    ensures
        replay(surface(q), seq![closing] + queue::promote_next_spec(q, now).1) == Some(
            surface(queue::promote_next_spec(q, now).0),
        ),
{
    if q.waiting.len() == 0 {
        assert(seq![closing] + queue::promote_next_spec(q, now).1 =~= seq![closing]);
        lemma_replay_one(surface(q), closing);
    } else {
        let show = queue::show_output(q.waiting[0]);
        assert(seq![closing] + queue::promote_next_spec(q, now).1 =~= seq![closing, show]);
        lemma_replay_two(surface(q), closing, show);
    }
}

/// A renderer that follows the outputs in order always shows exactly the live notification: there
/// is never more than one surface, and nothing morphs or closes but the one that is there.
pub proof fn outputs_keep_a_single_surface(q: QueueView, input: QueueInputView, now: u64)
    ensures
        replay(surface(q), queue::step(q, input, now).1) == Some(
            surface(queue::step(q, input, now).0),
        ),
{
    match input {
        QueueInputView::Post(e) => {
            let outs = queue::post_spec(q, e, now).1;
            if queue::coalesces_live(q, e) {
                lemma_replay_one(surface(q), outs[0]);
                assert(outs =~= seq![outs[0]]);
            } else if queue::coalesces_waiting(q, e) {
            } else if q.live is None {
                lemma_replay_one(surface(q), outs[0]);
                assert(outs =~= seq![outs[0]]);
            } else if queue::preempts(q, e) {
                lemma_replay_two(surface(q), outs[0], outs[1]);
                assert(outs =~= seq![outs[0], outs[1]]);
            }
        },
        QueueInputView::Close { replace_key } => {
            lemma_replay_close(q, Target::Key(replace_key), now);
        },
        QueueInputView::CloseId { id } => {
            lemma_replay_close(q, Target::Id(id), now);
        },
        QueueInputView::Tick => {
            if queue::expired(q, now) {
                lemma_replay_promotion(
                    q,
                    now,
                    queue::close_output(q.live->0, queue::CloseReason::Timeout),
                );
            }
        },
    }
}

proof fn lemma_replay_close(q: QueueView, t: Target, now: u64)
    ensures
        replay(surface(q), queue::close_spec(q, t, now).1) == Some(
            surface(queue::close_spec(q, t, now).0),
        ),
{
    if q.live is Some && queue::names(t, q.live->0) {
        lemma_replay_promotion(
            q,
            now,
            queue::close_output(q.live->0, queue::CloseReason::Explicit),
        );
    }
}

// ---- the invariant -----------------------------------------------------------------------

/// Whether none of these notifications has a deadline.
pub open spec fn without_deadlines(s: Seq<EntryView>) -> bool {
    forall|i: int| 0 <= i < s.len() ==> (#[trigger] s[i]).expires_at is None
}

/// What every reachable queue fulfils: nobody waits for a free surface; only the live notification
/// has a deadline, and it has one exactly when it is not sticky.
pub open spec fn well_formed(q: QueueView) -> bool {
    &&& q.live is None ==> q.waiting.len() == 0
    &&& without_deadlines(q.waiting)
    &&& q.live is Some ==> (q.live->0.expires_at is Some <==> q.live->0.timeout_ms > 0)
}

proof fn lemma_sorted_without_deadlines(s: Seq<EntryView>)
    requires
        without_deadlines(s),
    ensures
        without_deadlines(queue::by_priority(s)),
    decreases s.len(),
{
    if s.len() > 0 {
        lemma_sorted_without_deadlines(s.drop_last());
        let front = queue::by_priority(s.drop_last());
        queue::lemma_insertion_point(front, s.last().priority);
        let n = queue::insertion_point(front, s.last().priority);
        let all = queue::by_priority(s);
        assert forall|i: int| 0 <= i < all.len() implies (#[trigger] all[i]).expires_at is None by {
            if i < n {
                assert(all[i] == front[i]);
            } else if i > n {
                assert(all[i] == front[i - 1]);
            }
        }
    }
}

proof fn lemma_filter_without_deadlines(s: Seq<EntryView>, keep: spec_fn(EntryView) -> bool)
    requires
        without_deadlines(s),
    ensures
        without_deadlines(s.filter(keep)),
    decreases s.len(),
{
    reveal(Seq::filter);
    if s.len() > 0 {
        lemma_filter_without_deadlines(s.drop_last(), keep);
    }
}

proof fn lemma_close_well_formed(q: QueueView, t: Target, now: u64)
    requires
        well_formed(q),
    ensures
        well_formed(queue::close_spec(q, t, now).0),
{
    let keep = |e: EntryView| !queue::names(t, e);
    lemma_filter_without_deadlines(q.waiting, keep);
    if q.live is None {
        reveal(Seq::filter);
        assert(q.waiting.filter(keep).len() == 0);
    }
}

/// A new queue is well formed.
pub proof fn new_queue_is_well_formed(settings: queue::QueueSettings)
    ensures
        well_formed((QueueView { settings, live: None, waiting: Seq::empty() })),
{
}

/// Every input keeps the queue well formed; a change of settings does too.
pub proof fn inputs_keep_the_queue_well_formed(
    q: QueueView,
    input: QueueInputView,
    now: u64,
    settings: queue::QueueSettings,
)
    requires
        well_formed(q),
    ensures
        well_formed(queue::step(q, input, now).0),
        well_formed((QueueView { settings, ..q })),
{
    match input {
        QueueInputView::Post(e) => {
            if queue::coalesces_live(q, e) {
            } else if queue::coalesces_waiting(q, e) {
                lemma_find_key(q.waiting, e.replace_key->0, 0);
            } else if q.live is Some {
                let joining = if queue::preempts(q, e) {
                    q.live->0
                } else {
                    e
                };
                assert(without_deadlines(q.waiting.push(queue::parked(joining))));
                lemma_sorted_without_deadlines(q.waiting.push(queue::parked(joining)));
            }
        },
        QueueInputView::Close { replace_key } => {
            lemma_close_well_formed(q, Target::Key(replace_key), now);
        },
        QueueInputView::CloseId { id } => {
            lemma_close_well_formed(q, Target::Id(id), now);
        },
        QueueInputView::Tick => {},
    }
}

// ---- time --------------------------------------------------------------------------------

/// Before the live notification's deadline a timer wakeup changes nothing and emits nothing.
pub proof fn nothing_expires_early(q: QueueView, now: u64)
    requires
        q.live is Some ==> (q.live->0.expires_at is Some ==> now < q.live->0.expires_at->0),
    ensures
        queue::step(q, QueueInputView::Tick, now) == (q, Seq::<QueueOutputView>::empty()),
{
}

/// A sticky notification never times out.
pub proof fn sticky_notifications_never_time_out(q: QueueView, now: u64)
    requires
        well_formed(q),
        q.live is Some,
        q.live->0.timeout_ms == 0,
    ensures
        queue::step(q, QueueInputView::Tick, now) == (q, Seq::<QueueOutputView>::empty()),
{
}

/// A notification shown at one time is torn down by the first timer wakeup at or after that time
/// plus its timeout.
pub proof fn timeouts_are_kept(q: QueueView, shown_at: u64, now: u64)
    requires
        q.live is Some,
        q.live->0.timeout_ms > 0,
        q.live->0 == queue::shown(q.live->0, shown_at),
        shown_at + q.live->0.timeout_ms <= now,
    ensures
        queue::step(q, QueueInputView::Tick, now).1.len() > 0,
        queue::step(q, QueueInputView::Tick, now).1[0] == queue::close_output(
            q.live->0,
            queue::CloseReason::Timeout,
        ),
{
}

/// After a timer wakeup no deadline is left behind: the timer to arm next lies in the future.
pub proof fn wakeups_leave_no_expired_deadline(q: QueueView, now: u64)
    requires
        now + u32::MAX <= u64::MAX,
    ensures
        !queue::expired(queue::step(q, QueueInputView::Tick, now).0, now),
{
}

// ---- nothing is lost ---------------------------------------------------------------------

/// The ids of some notifications.
pub open spec fn ids(s: Seq<EntryView>) -> Seq<u64> {
    s.map_values(|e: EntryView| e.id)
}

/// The ids of all notifications that the queue holds.
pub open spec fn held(q: QueueView) -> Multiset<u64> {
    match q.live {
        Some(e) => ids(q.waiting).to_multiset().insert(e.id),
        None => ids(q.waiting).to_multiset(),
    }
}

proof fn lemma_sorted_ids(s: Seq<EntryView>)
    ensures
        ids(queue::by_priority(s)).to_multiset() == ids(s).to_multiset(),
    decreases s.len(),
{
    if s.len() > 0 {
        let front = queue::by_priority(s.drop_last());
        let e = s.last();
        let n = queue::insertion_point(front, e.priority);
        lemma_sorted_ids(s.drop_last());
        queue::lemma_insertion_point(front, e.priority);
        assert(ids(front.insert(n, e)) =~= ids(front).insert(n, e.id));
        vstd::seq_lib::to_multiset_insert(ids(front), n, e.id);
        assert(ids(s) =~= ids(s.drop_last()).push(e.id));
        vstd::seq_lib::to_multiset_build(ids(s.drop_last()), e.id);
    }
}

proof fn lemma_park_ids(q: QueueView, e: EntryView)
    ensures
        ids(queue::park_spec(q.settings.policy, q.waiting, e)).to_multiset() == ids(
            q.waiting,
        ).to_multiset().insert(e.id),
{
    let all = q.waiting.push(queue::parked(e));
    assert(ids(all) =~= ids(q.waiting).push(e.id));
    vstd::seq_lib::to_multiset_build(ids(q.waiting), e.id);
    lemma_sorted_ids(all);
}

/// No post loses a notification. A fresh one joins those that are held, a preempted one stays
/// among them, an update in place keeps the id that is shown, and an update of a waiting
/// notification takes its place.
pub proof fn posts_lose_nothing(q: QueueView, e: EntryView, now: u64)
    ensures
        ({
            let after = queue::step(q, QueueInputView::Post(e), now).0;
            if queue::coalesces_live(q, e) {
                held(after) == held(q)
            } else if queue::coalesces_waiting(q, e) {
                let slot = queue::find_key(q.waiting, e.replace_key->0, 0);
                held(after) == held(q).remove(q.waiting[slot].id).insert(e.id)
            } else {
                held(after) == held(q).insert(e.id)
            }
        }),
{
    let after = queue::post_spec(q, e, now).0;
    if queue::coalesces_live(q, e) {
    } else if queue::coalesces_waiting(q, e) {
        let slot = queue::find_key(q.waiting, e.replace_key->0, 0);
        lemma_find_key(q.waiting, e.replace_key->0, 0);
        let w = ids(q.waiting);
        assert(ids(after.waiting) =~= w.update(slot, e.id));
        vstd::seq_lib::to_multiset_update(w, slot, e.id);
        vstd::seq_lib::to_multiset_contains(w, w[slot]);
        assert(w.to_multiset().count(w[slot]) > 0);
        if q.live is Some {
            let l = q.live->0.id;
            assert(w.to_multiset().insert(e.id).remove(w[slot]).insert(l)
                =~= w.to_multiset().insert(l).remove(w[slot]).insert(e.id));
        } else {
            assert(w.to_multiset().insert(e.id).remove(w[slot]) =~= w.to_multiset().remove(
                w[slot],
            ).insert(e.id));
        }
        assert(held(after) =~= held(q).remove(w[slot]).insert(e.id));
    } else if q.live is None {
    } else if queue::preempts(q, e) {
        lemma_park_ids(q, q.live->0);
        assert(held(after) =~= held(q).insert(e.id));
    } else {
        lemma_park_ids(q, e);
        assert(held(after) =~= held(q).insert(e.id));
    }
}

/// `find_key` finds a notification with the key, if there is one.
pub proof fn lemma_find_key(s: Seq<EntryView>, key: Seq<char>, from: int)
    requires
        0 <= from <= s.len(),
    ensures
        from <= queue::find_key(s, key, from) <= s.len(),
        queue::find_key(s, key, from) < s.len() ==> queue::has_key(
            s[queue::find_key(s, key, from)],
            key,
        ),
        forall|i: int|
            from <= i < queue::find_key(s, key, from) ==> !queue::has_key(#[trigger] s[i], key),
    decreases s.len() - from,
{
    if from < s.len() && !queue::has_key(s[from], key) {
        lemma_find_key(s, key, from + 1);
    }
}

proof fn lemma_promotion_holds(q: QueueView, now: u64)
    requires
        q.live is Some,
    ensures
        held(queue::promote_next_spec(q, now).0) == held(q).remove(q.live->0.id),
{
    let l = q.live->0.id;
    let w = ids(q.waiting);
    let after = queue::promote_next_spec(q, now).0;
    if q.waiting.len() > 0 {
        assert(ids(q.waiting.skip(1)) =~= w.remove(0));
        vstd::seq_lib::to_multiset_remove(w, 0);
        vstd::seq_lib::to_multiset_contains(w, w[0]);
        assert(w.contains(w[0]));
        assert(w.to_multiset().remove(w[0]).insert(w[0]) =~= w.to_multiset());
    }
    assert(w.to_multiset().insert(l).remove(l) =~= w.to_multiset());
}

/// A timer wakeup takes away the live notification if it has run out, and nothing else.
pub proof fn wakeups_lose_only_the_expired(q: QueueView, now: u64)
    ensures
        held(queue::step(q, QueueInputView::Tick, now).0) == (if queue::expired(q, now) {
            held(q).remove(q.live->0.id)
        } else {
            held(q)
        }),
{
    if queue::expired(q, now) {
        lemma_promotion_holds(q, now);
    }
}

/// A close request that names the live notification takes it away and nothing else. One that does
/// not leaves it alone, and takes away exactly the waiting notifications that it names.
pub proof fn closes_lose_only_the_named(q: QueueView, t: Target, now: u64)
    ensures
        q.live is Some && queue::names(t, q.live->0) ==> held(queue::close_spec(q, t, now).0)
            == held(q).remove(q.live->0.id),
        !(q.live is Some && queue::names(t, q.live->0)) ==> {
            let after = queue::close_spec(q, t, now).0;
            &&& after.live == q.live
            &&& forall|e: EntryView| #[trigger]
                after.waiting.contains(e) <==> q.waiting.contains(e) && !queue::names(t, e)
        },
{
    if q.live is Some && queue::names(t, q.live->0) {
        lemma_promotion_holds(q, now);
    } else {
        let keep = |e: EntryView| !queue::names(t, e);
        assert forall|e: EntryView| #[trigger] q.waiting.filter(keep).contains(e)
            <==> q.waiting.contains(e) && keep(e) by {
            lemma_filter_contains(q.waiting, keep, e);
        }
    }
}

proof fn lemma_filter_contains(s: Seq<EntryView>, keep: spec_fn(EntryView) -> bool, e: EntryView)
    ensures
        s.filter(keep).contains(e) <==> s.contains(e) && keep(e),
    decreases s.len(),
{
    reveal(Seq::filter);
    if s.len() > 0 {
        let front = s.drop_last();
        lemma_filter_contains(front, keep, e);
        let f = front.filter(keep);
        let g = s.filter(keep);
        if s.contains(e) && keep(e) {
            if front.contains(e) {
                let i = choose|i: int| 0 <= i < f.len() && f[i] == e;
                assert(g[i] == e);
            } else {
                let i = choose|i: int| 0 <= i < s.len() && s[i] == e;
                assert(i == s.len() - 1) by {
                    if i < s.len() - 1 {
                        assert(front[i] == e);
                    }
                }
                assert(g[g.len() - 1] == e);
            }
        }
        if g.contains(e) {
            let i = choose|i: int| 0 <= i < g.len() && g[i] == e;
            if i < f.len() {
                assert(f[i] == e);
                let j = choose|j: int| 0 <= j < front.len() && front[j] == e;
                assert(s[j] == e);
            } else {
                assert(s[s.len() - 1] == e);
            }
        }
    }
}

// ---- order -------------------------------------------------------------------------------

/// Under the first-in, first-out policy a fresh post never disturbs the live notification: it
/// waits behind all others.
pub proof fn fifo_never_preempts(q: QueueView, e: EntryView, now: u64)
    requires
        q.settings.policy == QueuePolicy::Fifo,
        q.live is Some,
        !queue::coalesces_live(q, e),
        !queue::coalesces_waiting(q, e),
    ensures
        queue::step(q, QueueInputView::Post(e), now) == (
            (QueueView { waiting: q.waiting.push(queue::parked(e)), ..q }),
            Seq::<QueueOutputView>::empty(),
        ),
{
}

/// Whether priorities never rise along `s`.
pub open spec fn falling(s: Seq<EntryView>) -> bool {
    forall|i: int, j: int|
        0 <= i <= j < s.len() ==> (#[trigger] s[i]).priority >= (#[trigger] s[j]).priority
}

/// The notifications of one priority, in order.
pub open spec fn band(s: Seq<EntryView>, priority: i32) -> Seq<EntryView> {
    s.filter(|e: EntryView| e.priority == priority)
}

/// Waiting notifications are ordered by falling priority, and those of equal priority keep their
/// order of arrival.
pub proof fn waiting_order_is_stable(s: Seq<EntryView>, priority: i32)
    ensures
        falling(queue::by_priority(s)),
        band(queue::by_priority(s), priority) == band(s, priority),
    decreases s.len(),
{
    if s.len() > 0 {
        let e = s.last();
        let front = queue::by_priority(s.drop_last());
        let n = queue::insertion_point(front, e.priority);
        let pred = |x: EntryView| x.priority == priority;
        waiting_order_is_stable(s.drop_last(), priority);
        queue::lemma_insertion_point(front, e.priority);
        let all = front.insert(n, e);
        assert forall|i: int, j: int| 0 <= i <= j < all.len() implies (#[trigger] all[i]).priority
            >= (#[trigger] all[j]).priority by {
            let a = if i < n {
                i
            } else {
                i - 1
            };
            let b = if j < n {
                j
            } else {
                j - 1
            };
            if i != n {
                assert(all[i] == front[a]);
            }
            if j != n {
                assert(all[j] == front[b]);
            }
            if i != n && j != n {
                assert(front[a].priority >= front[b].priority);
            } else if i == n && j != n {
                assert(front[n].priority >= front[b].priority);
            }
        }
        let low = front.skip(n);
        let high = front.take(n);
        assert(front =~= high + low);
        assert(all =~= (high + seq![e]) + low);
        Seq::filter_distributes_over_add(high, low, pred);
        Seq::filter_distributes_over_add(high + seq![e], low, pred);
        Seq::filter_distributes_over_add(high, seq![e], pred);
        reveal(Seq::filter);
        assert(seq![e].drop_last() =~= Seq::empty());
        assert(Seq::<EntryView>::empty().filter(pred) =~= Seq::empty());
        if pred(e) {
            assert(seq![e].filter(pred) =~= seq![e]);
            assert forall|i: int| 0 <= i < low.len() implies !pred(#[trigger] low[i]) by {
                assert(low[i] == front[n + i]);
                assert(front[n].priority >= front[n + i].priority);
            }
            lemma_filter_none(low, pred);
            assert(all.filter(pred) =~= front.filter(pred).push(e));
        } else {
            assert(seq![e].filter(pred) =~= Seq::empty());
            assert(all.filter(pred) =~= front.filter(pred));
        }
    }
}

proof fn lemma_filter_none(s: Seq<EntryView>, pred: spec_fn(EntryView) -> bool)
    requires
        forall|i: int| 0 <= i < s.len() ==> !pred(#[trigger] s[i]),
    ensures
        s.filter(pred) == Seq::<EntryView>::empty(),
    decreases s.len(),
{
    reveal(Seq::filter);
    if s.len() > 0 {
        assert(!pred(s[s.len() - 1]));
        lemma_filter_none(s.drop_last(), pred);
    }
}

/// Whether the surface belongs to a notification of the highest priority, and the others wait by
/// falling priority.
pub open spec fn ranked(q: QueueView) -> bool {
    &&& falling(q.waiting)
    &&& forall|i: int|
        0 <= i < q.waiting.len() ==> (#[trigger] q.waiting[i]).priority <= q.live->0.priority
}

/// Whether a post updates a held notification under another priority, in place.
pub open spec fn changes_priority_in_place(q: QueueView, e: EntryView) -> bool {
    ||| queue::coalesces_live(q, e) && e.priority != q.live->0.priority
    ||| queue::coalesces_waiting(q, e) && e.priority != q.waiting[queue::find_key(
        q.waiting,
        e.replace_key->0,
        0,
    )].priority
}

proof fn lemma_bounded_by_priority(s: Seq<EntryView>, bound: int)
    requires
        forall|i: int| 0 <= i < s.len() ==> (#[trigger] s[i]).priority <= bound,
    ensures
        forall|i: int|
            0 <= i < queue::by_priority(s).len() ==> (#[trigger] queue::by_priority(s)[i]).priority
                <= bound,
    decreases s.len(),
{
    if s.len() > 0 {
        let front = queue::by_priority(s.drop_last());
        lemma_bounded_by_priority(s.drop_last(), bound);
        let n = queue::insertion_point(front, s.last().priority);
        queue::lemma_insertion_point(front, s.last().priority);
        let all = queue::by_priority(s);
        assert forall|i: int| 0 <= i < all.len() implies (#[trigger] all[i]).priority <= bound by {
            if i < n {
                assert(all[i] == front[i]);
            } else if i > n {
                assert(all[i] == front[i - 1]);
            }
        }
    }
}

proof fn lemma_filter_falling(s: Seq<EntryView>, keep: spec_fn(EntryView) -> bool, bound: int)
    requires
        falling(s),
        forall|i: int| 0 <= i < s.len() ==> (#[trigger] s[i]).priority <= bound,
    ensures
        falling(s.filter(keep)),
        forall|i: int|
            0 <= i < s.filter(keep).len() ==> (#[trigger] s.filter(keep)[i]).priority <= bound,
        s.len() > 0 ==> forall|i: int|
            0 <= i < s.filter(keep).len() ==> (#[trigger] s.filter(keep)[i]).priority
                >= s.last().priority,
    decreases s.len(),
{
    reveal(Seq::filter);
    if s.len() > 0 {
        let front = s.drop_last();
        lemma_filter_falling(front, keep, bound);
        let f = front.filter(keep);
        let g = s.filter(keep);
        if front.len() > 0 {
            assert(front.last() == s[s.len() - 2]);
            assert(s[s.len() - 2].priority >= s[s.len() - 1].priority);
        }
        assert forall|i: int| 0 <= i < g.len() implies (#[trigger] g[i]).priority
            >= s.last().priority by {
            if i < f.len() {
                assert(g[i] == f[i]);
            }
        }
        assert forall|i: int, j: int| 0 <= i <= j < g.len() implies (#[trigger] g[i]).priority >= (
        #[trigger] g[j]).priority by {
            if j < f.len() {
                assert(f[i].priority >= f[j].priority);
            }
        }
    }
}

proof fn lemma_close_ranked(q: QueueView, t: Target, now: u64)
    requires
        well_formed(q),
        ranked(q),
    ensures
        ranked(queue::close_spec(q, t, now).0),
{
    if q.live is Some && queue::names(t, q.live->0) {
        lemma_promotion_ranked(q, now);
    } else if q.live is Some {
        lemma_filter_falling(
            q.waiting,
            |e: EntryView| !queue::names(t, e),
            q.live->0.priority as int,
        );
    } else {
        reveal(Seq::filter);
    }
}

proof fn lemma_promotion_ranked(q: QueueView, now: u64)
    requires
        falling(q.waiting),
    ensures
        ranked(queue::promote_next_spec(q, now).0),
{
    if q.waiting.len() > 0 {
        let rest = q.waiting.skip(1);
        assert forall|i: int| 0 <= i < rest.len() implies (#[trigger] rest[i]).priority
            <= q.waiting[0].priority by {
            assert(q.waiting[0].priority >= q.waiting[i + 1].priority);
        }
        assert forall|i: int, j: int| 0 <= i <= j < rest.len() implies (#[trigger] rest[i]).priority
            >= (#[trigger] rest[j]).priority by {
            assert(q.waiting[i + 1].priority >= q.waiting[j + 1].priority);
        }
    }
}

/// Under the preempting policy the surface stays with a notification of the highest priority, and
/// the others wait by falling priority, as long as no update changes the priority of a held
/// notification in place.
pub proof fn the_highest_priority_is_live(q: QueueView, input: QueueInputView, now: u64)
    requires
        q.settings.policy == QueuePolicy::PriorityPreempt,
        well_formed(q),
        ranked(q),
        input is Post ==> !changes_priority_in_place(q, input->Post_0),
    ensures
        ranked(queue::step(q, input, now).0),
{
    match input {
        QueueInputView::Post(e) => {
            let after = queue::post_spec(q, e, now).0;
            if queue::coalesces_live(q, e) {
            } else if queue::coalesces_waiting(q, e) {
                let slot = queue::find_key(q.waiting, e.replace_key->0, 0);
                lemma_find_key(q.waiting, e.replace_key->0, 0);
                assert forall|i: int| 0 <= i < after.waiting.len() implies (
                #[trigger] after.waiting[i]).priority == q.waiting[i].priority by {
                }
                assert forall|i: int, j: int| 0 <= i <= j < after.waiting.len() implies (
                #[trigger] after.waiting[i]).priority >= (
                #[trigger] after.waiting[j]).priority by {
                    assert(q.waiting[i].priority >= q.waiting[j].priority);
                }
            } else if q.live is Some {
                let joining = if queue::preempts(q, e) {
                    q.live->0
                } else {
                    e
                };
                let all = q.waiting.push(queue::parked(joining));
                waiting_order_is_stable(all, 0);
                lemma_bounded_by_priority(all, q.live->0.priority as int);
            }
        },
        QueueInputView::Close { replace_key } => {
            lemma_close_ranked(q, Target::Key(replace_key), now);
        },
        QueueInputView::CloseId { id } => {
            lemma_close_ranked(q, Target::Id(id), now);
        },
        QueueInputView::Tick => {
            lemma_promotion_ranked(q, now);
        },
    }
}

// ---- who is next, over a whole run -------------------------------------------------------

/// The queue after some inputs, each with its time, from the empty queue on.
pub open spec fn queue_after(settings: QueueSettings, run: Seq<(QueueInputView, u64)>) -> QueueView
    decreases run.len(),
{
    if run.len() == 0 {
        QueueView { settings, live: None, waiting: Seq::empty() }
    } else {
        queue::step(queue_after(settings, run.drop_last()), run.last().0, run.last().1).0
    }
}

/// Whether no post of a run was coalesced into a waiting notification.
pub open spec fn none_coalesced_waiting(
    settings: QueueSettings,
    run: Seq<(QueueInputView, u64)>,
) -> bool
    decreases run.len(),
{
    run.len() > 0 ==> {
        &&& none_coalesced_waiting(settings, run.drop_last())
        &&& run.last().0 is Post ==> !queue::coalesces_waiting(
            queue_after(settings, run.drop_last()),
            run.last().0->Post_0,
        )
    }
}

/// Whether an input takes the live notification off the surface for good.
pub open spec fn closes_live(q: QueueView, input: QueueInputView, now: u64) -> bool {
    match input {
        QueueInputView::Post(_) => false,
        QueueInputView::Close { replace_key } => q.live is Some && queue::names(
            Target::Key(replace_key),
            q.live->0,
        ),
        QueueInputView::CloseId { id } => q.live is Some && queue::names(Target::Id(id), q.live->0),
        QueueInputView::Tick => queue::expired(q, now),
    }
}

/// Whether an input names a notification that it closes.
pub open spec fn names_entry(input: QueueInputView, e: EntryView) -> bool {
    match input {
        QueueInputView::Close { replace_key } => queue::names(Target::Key(replace_key), e),
        QueueInputView::CloseId { id } => queue::names(Target::Id(id), e),
        _ => false,
    }
}

/// The first position of `e` in `s`.
pub open spec fn place(s: Seq<EntryView>, e: EntryView) -> int
    decreases s.len(),
{
    if s.len() == 0 || s[0] == e {
        0
    } else {
        1 + place(s.skip(1), e)
    }
}

/// A line once an input has come in: who starts to wait joins at its end; who is shown or closed
/// leaves it, and the others close up.
pub open spec fn line_step(
    q: QueueView,
    line: Seq<EntryView>,
    input: QueueInputView,
    now: u64,
) -> Seq<EntryView> {
    match input {
        QueueInputView::Post(e) => if queue::coalesces_live(q, e) || queue::coalesces_waiting(q, e)
            || q.live is None {
            line
        } else if queue::preempts(q, e) {
            line.push(queue::parked(q.live->0))
        } else {
            line.push(queue::parked(e))
        },
        _ => if closes_live(q, input, now) {
            if q.waiting.len() > 0 {
                line.remove(place(line, q.waiting[0]))
            } else {
                line
            }
        } else {
            line.filter(|e: EntryView| !names_entry(input, e))
        },
    }
}

/// The waiting notifications after a run, in the order in which they began to wait.
pub open spec fn line_after(settings: QueueSettings, run: Seq<(QueueInputView, u64)>) -> Seq<
    EntryView,
>
    decreases run.len(),
{
    if run.len() == 0 {
        Seq::empty()
    } else {
        line_step(
            queue_after(settings, run.drop_last()),
            line_after(settings, run.drop_last()),
            run.last().0,
            run.last().1,
        )
    }
}

/// Who is shown next: under the first-in, first-out policy the first in line; else one of the
/// highest priority, and among those the first in line.
pub open spec fn next_in_line(policy: QueuePolicy, line: Seq<EntryView>, k: int) -> bool {
    &&& 0 <= k < line.len()
    &&& match policy {
        QueuePolicy::Fifo => k == 0,
        QueuePolicy::PriorityPreempt => {
            &&& forall|i: int|
                0 <= i < line.len() ==> (#[trigger] line[i]).priority <= line[k].priority
            &&& forall|i: int| 0 <= i < k ==> (#[trigger] line[i]).priority < line[k].priority
        },
    }
}

/// How a line waits: as it stands, or sorted by falling priority.
pub open spec fn arranged(policy: QueuePolicy, line: Seq<EntryView>) -> Seq<EntryView> {
    match policy {
        QueuePolicy::Fifo => line,
        QueuePolicy::PriorityPreempt => queue::by_priority(line),
    }
}

proof fn lemma_place(s: Seq<EntryView>, e: EntryView)
    requires
        s.contains(e),
    ensures
        0 <= place(s, e) < s.len(),
        s[place(s, e)] == e,
        forall|i: int| 0 <= i < place(s, e) ==> #[trigger] s[i] != e,
    decreases s.len(),
{
    if s[0] != e {
        let rest = s.skip(1);
        let j = choose|j: int| 0 <= j < s.len() && s[j] == e;
        assert(rest[j - 1] == e);
        lemma_place(rest, e);
        assert forall|i: int| 0 <= i < place(s, e) implies #[trigger] s[i] != e by {
            if i > 0 {
                assert(rest[i - 1] == s[i]);
            }
        }
    }
}

proof fn lemma_place_is(s: Seq<EntryView>, e: EntryView, k: int)
    requires
        0 <= k < s.len(),
        s[k] == e,
        forall|i: int| 0 <= i < k ==> #[trigger] s[i] != e,
    ensures
        place(s, e) == k,
{
    lemma_place(s, e);
    let m = place(s, e);
    if m < k {
        assert(s[m] != e);
    }
    if k < m {
        assert(s[k] != e);
    }
}

proof fn lemma_sorted_stays(s: Seq<EntryView>)
    requires
        falling(s),
    ensures
        queue::by_priority(s) == s,
    decreases s.len(),
{
    if s.len() > 0 {
        let front = s.drop_last();
        let e = s.last();
        assert(falling(front)) by {
            assert forall|i: int, j: int| 0 <= i <= j < front.len() implies (
            #[trigger] front[i]).priority >= (#[trigger] front[j]).priority by {
                assert(s[i].priority >= s[j].priority);
            }
        }
        lemma_sorted_stays(front);
        assert forall|i: int| 0 <= i < front.len() implies (#[trigger] front[i]).priority
            >= e.priority by {
            assert(s[i].priority >= s[s.len() - 1].priority);
        }
        queue::lemma_insertion_point_is(front, e.priority, front.len() as int);
        assert(front.insert(front.len() as int, e) =~= s);
    }
}

proof fn lemma_filter_sorted(s: Seq<EntryView>, keep: spec_fn(EntryView) -> bool)
    ensures
        queue::by_priority(s.filter(keep)) == queue::by_priority(s).filter(keep),
    decreases s.len(),
{
    reveal(Seq::filter);
    if s.len() == 0 {
        assert(s.filter(keep) =~= Seq::empty());
    } else {
        let e = s.last();
        let front = queue::by_priority(s.drop_last());
        let n = queue::insertion_point(front, e.priority);
        lemma_filter_sorted(s.drop_last(), keep);
        waiting_order_is_stable(s.drop_last(), 0);
        queue::lemma_insertion_point(front, e.priority);
        let high = front.take(n);
        let low = front.skip(n);
        assert(front =~= high + low);
        assert(front.insert(n, e) =~= (high + seq![e]) + low);
        Seq::filter_distributes_over_add(high, low, keep);
        Seq::filter_distributes_over_add(high + seq![e], low, keep);
        Seq::filter_distributes_over_add(high, seq![e], keep);
        assert(seq![e].drop_last() =~= Seq::empty());
        assert(Seq::<EntryView>::empty().filter(keep) =~= Seq::empty());
        let h = high.filter(keep);
        let l = low.filter(keep);
        if keep(e) {
            assert(seq![e].filter(keep) =~= seq![e]);
            assert(s.filter(keep) =~= s.drop_last().filter(keep).push(e));
            let kept = h + l;
            assert(kept == front.filter(keep));
            assert forall|i: int| 0 <= i < h.len() implies (#[trigger] kept[i]).priority
                >= e.priority by {
                assert(h.contains(h[i]));
                high.lemma_filter_contains_rev(keep, h[i]);
                let j = choose|j: int| 0 <= j < high.len() && high[j] == h[i];
                assert(front[j].priority >= e.priority);
            }
            if l.len() > 0 {
                assert(l.contains(l[0]));
                low.lemma_filter_contains_rev(keep, l[0]);
                let j = choose|j: int| 0 <= j < low.len() && low[j] == l[0];
                assert(front[n].priority >= front[n + j].priority);
                assert(kept[h.len() as int] == l[0]);
            }
            queue::lemma_insertion_point_is(kept, e.priority, h.len() as int);
            assert(s.filter(keep).drop_last() =~= s.drop_last().filter(keep));
            assert(kept.insert(h.len() as int, e) =~= (h + seq![e]) + l);
        } else {
            assert(seq![e].filter(keep) =~= Seq::empty());
            assert(s.filter(keep) =~= s.drop_last().filter(keep));
            assert((h + Seq::empty()) + l =~= h + l);
        }
    }
}

/// Taking the first of the sorted line out of the line.
proof fn lemma_first_leaves(line: Seq<EntryView>)
    requires
        line.len() > 0,
    ensures
        queue::by_priority(line).len() == line.len(),
        ({
            let k = place(line, queue::by_priority(line)[0]);
            &&& next_in_line(QueuePolicy::PriorityPreempt, line, k)
            &&& line[k] == queue::by_priority(line)[0]
            &&& queue::by_priority(line.remove(k)) == queue::by_priority(line).skip(1)
        }),
    decreases line.len(),
{
    let front = line.drop_last();
    let e = line.last();
    let g = queue::by_priority(front);
    let n = queue::insertion_point(g, e.priority);
    queue::lemma_insertion_point(g, e.priority);
    let sorted = queue::by_priority(line);
    assert(sorted == g.insert(n, e));
    if front.len() == 0 {
        assert(g == front);
        assert(sorted =~= seq![e]);
        lemma_place_is(line, e, 0);
        assert(line.remove(0) =~= Seq::empty());
        assert(sorted.skip(1) =~= Seq::empty());
    } else {
        lemma_first_leaves(front);
        let m = place(front, g[0]);
        if n == 0 {
            assert(sorted[0] == e);
            assert(g[0].priority < e.priority);
            assert forall|i: int| 0 <= i < front.len() implies (#[trigger] line[i]).priority
                < e.priority by {
                assert(line[i] == front[i]);
                assert(front[i].priority <= front[m].priority);
            }
            lemma_place_is(line, e, line.len() - 1);
            assert(line.remove(line.len() - 1) =~= front);
            assert(sorted.skip(1) =~= g);
        } else {
            assert(sorted[0] == g[0]);
            assert(g[0].priority >= e.priority);
            assert(line[m] == front[m]);
            assert forall|i: int| 0 <= i < m implies (#[trigger] line[i]).priority
                < line[m].priority by {
                assert(line[i] == front[i]);
            }
            assert forall|i: int| 0 <= i < line.len() implies (#[trigger] line[i]).priority
                <= line[m].priority by {
                if i < front.len() {
                    assert(line[i] == front[i]);
                }
            }
            lemma_place_is(line, g[0], m);
            let left = line.remove(m);
            let rest = front.remove(m);
            assert(left =~= rest.push(e));
            assert(left.drop_last() =~= rest);
            assert(left.last() == e);
            let tail = g.skip(1);
            assert(queue::by_priority(rest) == tail);
            assert forall|i: int| 0 <= i < n - 1 implies (#[trigger] tail[i]).priority
                >= e.priority by {
                assert(tail[i] == g[i + 1]);
            }
            if n - 1 < tail.len() {
                assert(tail[n - 1] == g[n]);
            }
            queue::lemma_insertion_point_is(tail, e.priority, n - 1);
            assert(tail.insert(n - 1, e) =~= sorted.skip(1));
        }
    }
}

proof fn lemma_run(settings: QueueSettings, run: Seq<(QueueInputView, u64)>)
    requires
        none_coalesced_waiting(settings, run),
    ensures
        queue_after(settings, run).settings == settings,
        queue_after(settings, run).waiting == arranged(
            settings.policy,
            line_after(settings, run),
        ),
    decreases run.len(),
{
    if run.len() > 0 {
        let before = run.drop_last();
        lemma_run(settings, before);
        let q = queue_after(settings, before);
        let line = line_after(settings, before);
        let input = run.last().0;
        let now = run.last().1;
        let keep = |e: EntryView| !names_entry(input, e);
        match input {
            QueueInputView::Post(e) => {
                if !queue::coalesces_live(q, e) && q.live is Some {
                    let joining = queue::parked(
                        if queue::preempts(q, e) {
                            q.live->0
                        } else {
                            e
                        },
                    );
                    if settings.policy == QueuePolicy::PriorityPreempt {
                        waiting_order_is_stable(line, 0);
                        lemma_sorted_stays(queue::by_priority(line));
                        assert(q.waiting.push(joining).drop_last() =~= q.waiting);
                        assert(line.push(joining).drop_last() =~= line);
                    }
                }
            },
            _ => {
                if closes_live(q, input, now) {
                    lemma_next(settings, q, line);
                } else {
                    if settings.policy == QueuePolicy::PriorityPreempt {
                        lemma_filter_sorted(line, keep);
                    }
                    match input {
                        QueueInputView::Close { replace_key } => {
                            let t = Target::Key(replace_key);
                            assert((|e: EntryView| !queue::names(t, e)) =~= keep);
                        },
                        QueueInputView::CloseId { id } => {
                            let t = Target::Id(id);
                            assert((|e: EntryView| !queue::names(t, e)) =~= keep);
                        },
                        _ => {
                            lemma_filter_all(q.waiting, keep);
                        },
                    }
                }
            },
        }
    }
}

proof fn lemma_filter_all(s: Seq<EntryView>, keep: spec_fn(EntryView) -> bool)
    requires
        forall|e: EntryView| #[trigger] keep(e),
    ensures
        s.filter(keep) == s,
    decreases s.len(),
{
    reveal(Seq::filter);
    if s.len() > 0 {
        assert(keep(s.last()));
        lemma_filter_all(s.drop_last(), keep);
        assert(s.drop_last().push(s.last()) =~= s);
    }
}

proof fn lemma_next(settings: QueueSettings, q: QueueView, line: Seq<EntryView>)
    requires
        q.waiting == arranged(settings.policy, line),
    ensures
        q.waiting.len() == line.len(),
        line.len() > 0 ==> ({
            let k = place(line, q.waiting[0]);
            &&& next_in_line(settings.policy, line, k)
            &&& line[k] == q.waiting[0]
            &&& q.waiting.skip(1) == arranged(settings.policy, line.remove(k))
        }),
{
    if line.len() > 0 {
        match settings.policy {
            QueuePolicy::Fifo => {
                assert(line.remove(0) =~= line.skip(1));
            },
            QueuePolicy::PriorityPreempt => {
                lemma_first_leaves(line);
            },
        }
    }
}

/// Over any run of inputs under unchanged settings, in which no post was coalesced into a waiting
/// notification: when the live notification closes while others wait, the one that is shown is of
/// the highest priority among them, and began to wait first among its equals; under the first-in,
/// first-out policy it began to wait first of all. The others keep waiting in the same order.
pub proof fn the_next_in_line_is_shown(
    settings: QueueSettings,
    run: Seq<(QueueInputView, u64)>,
    input: QueueInputView,
    now: u64,
)
    requires
        none_coalesced_waiting(settings, run),
        closes_live(queue_after(settings, run), input, now),
        line_after(settings, run).len() > 0,
    ensures
        ({
            let q = queue_after(settings, run);
            let line = line_after(settings, run);
            let next = queue::step(q, input, now);
            let promotion = queue::promote_next_spec(q, now);
            &&& q.waiting == arranged(settings.policy, line)
            &&& next.0 == promotion.0
            &&& next.1 == seq![next.1[0]] + promotion.1
            &&& exists|k: int|
                {
                    &&& #[trigger] next_in_line(settings.policy, line, k)
                    &&& next.0.live == Some(queue::shown(line[k], now))
                    &&& next.1.len() == 2
                    &&& next.1[0] is Close
                    &&& promotion.1 == seq![queue::show_output(line[k])]
                    &&& next.1[1] == queue::show_output(line[k])
                    &&& line_after(settings, run.push((input, now))) == line.remove(k)
                }
            &&& next.0.waiting == q.waiting.skip(1)
        }),
{
    let q = queue_after(settings, run);
    let line = line_after(settings, run);
    lemma_run(settings, run);
    lemma_next(settings, q, line);
    assert(run.push((input, now)).drop_last() =~= run);
    let k = place(line, q.waiting[0]);
    assert(next_in_line(settings.policy, line, k));
}

// ---- what each input comes to ------------------------------------------------------------

/// Whether two notifications have the same key, priority, timeout and content.
pub open spec fn carries(a: EntryView, b: EntryView) -> bool {
    &&& a.replace_key == b.replace_key
    &&& a.priority == b.priority
    &&& a.timeout_ms == b.timeout_ms
    &&& a.scene == b.scene
    &&& a.style == b.style
    &&& a.anim == b.anim
}

/// Whether the time of a notification runs from `now` on; that of a sticky one does not run.
pub open spec fn runs_from(e: EntryView, now: u64) -> bool {
    if e.timeout_ms == 0 {
        e.expires_at is None
    } else {
        e.expires_at is Some && e.expires_at->0 == now + e.timeout_ms
    }
}

/// Whether an output shows a notification with its own content.
pub open spec fn shows(o: QueueOutputView, e: EntryView) -> bool {
    o == (QueueOutputView::Show {
        id: e.id,
        timeout_ms: e.timeout_ms,
        scene: e.scene,
        style: e.style,
        anim: e.anim,
    })
}

/// Whether an output takes a notification down for a reason, under its own key.
pub open spec fn takes_down(o: QueueOutputView, e: EntryView, reason: queue::CloseReason) -> bool {
    o == (QueueOutputView::Close { id: e.id, reason, replace_key: e.replace_key })
}

/// Whether a post is no update: nothing that the queue holds shares its replace key, or it has
/// none, or updates are not coalesced.
pub open spec fn is_fresh(q: QueueView, e: EntryView) -> bool {
    ||| !q.settings.coalesce_replace
    ||| e.replace_key is None
    ||| {
        &&& q.live is Some ==> q.live->0.replace_key != e.replace_key
        &&& forall|i: int|
            0 <= i < q.waiting.len() ==> (#[trigger] q.waiting[i]).replace_key != e.replace_key
    }
}

/// Whether `after` is `before` with one more notification in it, which has no deadline while it
/// waits: at the end under the first-in, first-out policy; else all by falling priority, and those
/// of one priority as they stood, the new one behind its equals.
pub open spec fn joined(
    policy: QueuePolicy,
    before: Seq<EntryView>,
    e: EntryView,
    after: Seq<EntryView>,
) -> bool {
    let all = before.push(EntryView { expires_at: None, ..e });
    match policy {
        QueuePolicy::Fifo => after == all,
        QueuePolicy::PriorityPreempt => {
            &&& after.to_multiset() == all.to_multiset()
            &&& forall|i: int, j: int|
                0 <= i <= j < after.len() ==> (#[trigger] after[i]).priority >= (
                #[trigger] after[j]).priority
            &&& forall|p: i32| #[trigger] band(after, p) == band(all, p)
        },
    }
}

proof fn lemma_sorted_multiset(s: Seq<EntryView>)
    ensures
        queue::by_priority(s).to_multiset() == s.to_multiset(),
    decreases s.len(),
{
    if s.len() > 0 {
        let front = queue::by_priority(s.drop_last());
        let e = s.last();
        let n = queue::insertion_point(front, e.priority);
        lemma_sorted_multiset(s.drop_last());
        queue::lemma_insertion_point(front, e.priority);
        vstd::seq_lib::to_multiset_insert(front, n, e);
        assert(s =~= s.drop_last().push(e));
        vstd::seq_lib::to_multiset_build(s.drop_last(), e);
    }
}

proof fn lemma_joined(policy: QueuePolicy, before: Seq<EntryView>, e: EntryView)
    ensures
        joined(policy, before, e, queue::park_spec(policy, before, e)),
{
    let all = before.push(EntryView { expires_at: None, ..e });
    let after = queue::park_spec(policy, before, e);
    if policy == QueuePolicy::PriorityPreempt {
        lemma_sorted_multiset(all);
        waiting_order_is_stable(all, 0);
        assert forall|p: i32| #[trigger] band(after, p) == band(all, p) by {
            waiting_order_is_stable(all, p);
        }
    }
}

/// A post under the key of the live notification turns it into the posted one: the surface keeps
/// its id and morphs, once, to the posted scene, style, springs and timeout, and its time runs anew.
/// Nobody else is concerned.
pub proof fn posts_under_the_live_key_morph_it(q: QueueView, e: EntryView, now: u64)
    requires
        q.settings.coalesce_replace,
        q.live is Some,
        e.replace_key is Some,
        q.live->0.replace_key == e.replace_key,
        now + u32::MAX <= u64::MAX,
    ensures
        ({
            let r = queue::step(q, QueueInputView::Post(e), now);
            &&& r.1.len() == 1
            &&& r.1[0] == (QueueOutputView::Morph {
                id: q.live->0.id,
                timeout_ms: e.timeout_ms,
                scene: e.scene,
                style: e.style,
                anim: e.anim,
            })
            &&& r.0.live is Some
            &&& r.0.live->0.id == q.live->0.id
            &&& carries(r.0.live->0, e)
            &&& runs_from(r.0.live->0, now)
            &&& r.0.waiting == q.waiting
        }),
{
}

/// A post under the key of a waiting notification, and not of the live one, takes the place of the
/// first that waits under it. Nothing is shown.
pub proof fn posts_under_a_waiting_key_take_its_place(q: QueueView, e: EntryView, now: u64, i: int)
    requires
        q.settings.coalesce_replace,
        e.replace_key is Some,
        q.live is Some ==> q.live->0.replace_key != e.replace_key,
        0 <= i < q.waiting.len(),
        q.waiting[i].replace_key == e.replace_key,
        forall|j: int| 0 <= j < i ==> (#[trigger] q.waiting[j]).replace_key != e.replace_key,
    ensures
        ({
            let r = queue::step(q, QueueInputView::Post(e), now);
            &&& r.1.len() == 0
            &&& r.0.live == q.live
            &&& r.0.waiting.len() == q.waiting.len()
            &&& r.0.waiting[i].id == e.id
            &&& carries(r.0.waiting[i], e)
            &&& r.0.waiting[i].expires_at is None
            &&& forall|j: int|
                0 <= j < q.waiting.len() && j != i ==> #[trigger] r.0.waiting[j] == q.waiting[j]
        }),
{
    let key = e.replace_key->0;
    lemma_find_key(q.waiting, key, 0);
    let f = queue::find_key(q.waiting, key, 0);
    if f < i {
        assert(queue::has_key(q.waiting[f], key));
    }
    if i < f {
        assert(!queue::has_key(q.waiting[i], key));
    }
}

proof fn lemma_fresh(q: QueueView, e: EntryView)
    requires
        is_fresh(q, e),
    ensures
        !queue::coalesces_live(q, e),
        !queue::coalesces_waiting(q, e),
{
    if e.replace_key is Some {
        lemma_find_key(q.waiting, e.replace_key->0, 0);
    }
}

/// A fresh post on a free surface is shown at once, with its own content, and its time runs.
pub proof fn posts_on_a_free_surface_are_shown(q: QueueView, e: EntryView, now: u64)
    requires
        is_fresh(q, e),
        q.live is None,
        now + u32::MAX <= u64::MAX,
    ensures
        ({
            let r = queue::step(q, QueueInputView::Post(e), now);
            &&& r.1.len() == 1
            &&& shows(r.1[0], e)
            &&& r.0.live is Some
            &&& r.0.live->0.id == e.id
            &&& carries(r.0.live->0, e)
            &&& runs_from(r.0.live->0, now)
            &&& r.0.waiting == q.waiting
        }),
{
    lemma_fresh(q, e);
}

/// Under the preempting policy a fresh post of a higher priority takes the surface: the live
/// notification is closed as preempted, the posted one is shown, and the other waits from now on.
pub proof fn higher_priorities_take_the_surface(q: QueueView, e: EntryView, now: u64)
    requires
        is_fresh(q, e),
        q.settings.policy == QueuePolicy::PriorityPreempt,
        q.live is Some,
        e.priority > q.live->0.priority,
        now + u32::MAX <= u64::MAX,
    ensures
        ({
            let r = queue::step(q, QueueInputView::Post(e), now);
            &&& r.1.len() == 2
            &&& takes_down(r.1[0], q.live->0, queue::CloseReason::Preempted)
            &&& shows(r.1[1], e)
            &&& r.0.live is Some
            &&& r.0.live->0.id == e.id
            &&& carries(r.0.live->0, e)
            &&& runs_from(r.0.live->0, now)
            &&& joined(q.settings.policy, q.waiting, q.live->0, r.0.waiting)
        }),
{
    lemma_fresh(q, e);
    lemma_joined(q.settings.policy, q.waiting, q.live->0);
}

/// Any other fresh post waits: one of no higher priority than the live notification, and under the
/// first-in, first-out policy every one. Nothing is shown and the live one stays.
pub proof fn other_posts_wait(q: QueueView, e: EntryView, now: u64)
    requires
        is_fresh(q, e),
        q.live is Some,
        q.settings.policy == QueuePolicy::Fifo || e.priority <= q.live->0.priority,
    ensures
        ({
            let r = queue::step(q, QueueInputView::Post(e), now);
            &&& r.1.len() == 0
            &&& r.0.live == q.live
            &&& joined(q.settings.policy, q.waiting, e, r.0.waiting)
        }),
{
    lemma_fresh(q, e);
    lemma_joined(q.settings.policy, q.waiting, e);
}

/// Whether the live notification left for a reason and the first that waited took its place, if
/// there was one.
pub open spec fn gave_way(
    q: QueueView,
    reason: queue::CloseReason,
    now: u64,
    after: QueueView,
    outs: Seq<QueueOutputView>,
) -> bool {
    &&& outs.len() > 0
    &&& takes_down(outs[0], q.live->0, reason)
    &&& q.waiting.len() == 0 ==> outs.len() == 1 && after.live is None && after.waiting.len() == 0
    &&& q.waiting.len() > 0 ==> {
        &&& outs.len() == 2
        &&& shows(outs[1], q.waiting[0])
        &&& after.live is Some
        &&& after.live->0.id == q.waiting[0].id
        &&& carries(after.live->0, q.waiting[0])
        &&& runs_from(after.live->0, now)
        &&& after.waiting == q.waiting.subrange(1, q.waiting.len() as int)
    }
}

/// A close request under a key takes the live notification down if it carries that key, and the
/// next in line is shown; else it silently drops all that wait under the key, and no others.
pub proof fn keys_close_what_carries_them(q: QueueView, key: Seq<char>, now: u64)
    requires
        now + u32::MAX <= u64::MAX,
    ensures
        ({
            let r = queue::step(q, QueueInputView::Close { replace_key: key }, now);
            if q.live is Some && q.live->0.replace_key == Some(key) {
                gave_way(q, queue::CloseReason::Explicit, now, r.0, r.1)
            } else {
                &&& r.1.len() == 0
                &&& r.0.live == q.live
                &&& r.0.waiting == q.waiting.filter(|x: EntryView| x.replace_key != Some(key))
            }
        }),
{
    if !(q.live is Some && q.live->0.replace_key == Some(key)) {
        let a = |x: EntryView| x.replace_key != Some(key);
        let b = |x: EntryView| !queue::names(Target::Key(key), x);
        assert(a =~= b);
    }
}

/// A close request under an id takes the live notification down if it has that id, and the next in
/// line is shown; else it silently drops what waits under the id, and nothing else.
pub proof fn ids_close_what_has_them(q: QueueView, id: u64, now: u64)
    requires
        now + u32::MAX <= u64::MAX,
    ensures
        ({
            let r = queue::step(q, QueueInputView::CloseId { id }, now);
            if q.live is Some && q.live->0.id == id {
                gave_way(q, queue::CloseReason::Explicit, now, r.0, r.1)
            } else {
                &&& r.1.len() == 0
                &&& r.0.live == q.live
                &&& r.0.waiting == q.waiting.filter(|x: EntryView| x.id != id)
            }
        }),
{
    if !(q.live is Some && q.live->0.id == id) {
        let a = |x: EntryView| x.id != id;
        let b = |x: EntryView| !queue::names(Target::Id(id), x);
        assert(a =~= b);
    }
}

/// A timer wakeup takes the live notification down once its deadline has come, and the next in line
/// is shown; before that, and without a deadline, it does nothing.
pub proof fn wakeups_take_down_what_has_run_out(q: QueueView, now: u64)
    requires
        now + u32::MAX <= u64::MAX,
    ensures
        ({
            let r = queue::step(q, QueueInputView::Tick, now);
            if q.live is Some && q.live->0.expires_at is Some && q.live->0.expires_at->0 <= now {
                gave_way(q, queue::CloseReason::Timeout, now, r.0, r.1)
            } else {
                r.0 == q && r.1.len() == 0
            }
        }),
{
}

/// No input changes the settings.
pub proof fn inputs_keep_the_settings(q: QueueView, input: QueueInputView, now: u64)
    ensures
        queue::step(q, input, now).0.settings == q.settings,
{
}

// ---- what is on screen -------------------------------------------------------------------

/// What a renderer has on its surface.
pub struct Screen {
    pub id: u64,
    pub timeout_ms: u32,
    pub scene: crate::scene::SceneView,
    pub style: crate::style::ResolvedStyle,
    pub anim: crate::style::ResolvedAnimProfile,
}

/// What a renderer has on its surface once it has followed some outputs in order.
pub open spec fn displayed(before: Option<Screen>, outs: Seq<QueueOutputView>) -> Option<Screen>
    decreases outs.len(),
{
    if outs.len() == 0 {
        before
    } else {
        match outs.last() {
            QueueOutputView::Show { id, timeout_ms, scene, style, anim } => Some(
                Screen { id, timeout_ms, scene, style, anim },
            ),
            QueueOutputView::Morph { id, timeout_ms, scene, style, anim } => Some(
                Screen { id, timeout_ms, scene, style, anim },
            ),
            QueueOutputView::Close { .. } => None,
        }
    }
}

/// What ought to be on the surface: the live notification, with its own content.
pub open spec fn due_on_screen(q: QueueView) -> Option<Screen> {
    match q.live {
        Some(e) => Some(
            Screen {
                id: e.id,
                timeout_ms: e.timeout_ms,
                scene: e.scene,
                style: e.style,
                anim: e.anim,
            },
        ),
        None => None,
    }
}

/// A renderer that follows the outputs always displays the scene, style, springs and timeout of the
/// notification that the queue holds as live.
pub proof fn the_live_content_is_on_screen(q: QueueView, input: QueueInputView, now: u64)
    ensures
        displayed(due_on_screen(q), queue::step(q, input, now).1) == due_on_screen(
            queue::step(q, input, now).0,
        ),
{
}

/// A queue starts with nothing shown and nothing waiting.
pub proof fn queues_start_idle(settings: QueueSettings, q: queue::QueueManager)
    requires
        call_ensures(queue::QueueManager::new, (settings,), q),
    ensures
        q@.live is None,
        q@.waiting.len() == 0,
        q@.settings == settings,
{
}

/// New settings touch nothing that is shown or waits.
pub proof fn new_settings_keep_the_notifications(q: QueueView, settings: QueueSettings)
    ensures
        queue::with_settings(q, settings).settings == settings,
        queue::with_settings(q, settings).live == q.live,
        queue::with_settings(q, settings).waiting == q.waiting,
{
}

} // verus!
