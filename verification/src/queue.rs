//! The time-injected state machine that arbitrates which notification owns the single island
//! surface.
//!
//! It is free of channels, clocks and templates: the driver runs the resolve, bind, build
//! pipeline, feeds the resulting [`Scene`] in through [`QueueInput`], and forwards each
//! [`QueueOutput`] to the renderer. Time is passed in as monotonic milliseconds.

use vstd::prelude::*;

use crate::config::QueuePolicy;
use crate::scene::{Scene, SceneView};
use crate::style::{ResolvedAnimProfile, ResolvedStyle};
use crate::text;

verus! {

/// Monotonic milliseconds since the daemon started.
pub type TimeMs = u64;

/// The queue policy in force.
#[derive(Clone, Copy, Debug, PartialEq, Eq, Structural)]
pub struct QueueSettings {
    pub policy: QueuePolicy,
    pub coalesce_replace: bool,
}

/// What the driver feeds the manager. The scene is already built, and the notification's style and
/// springs are already resolved.
#[allow(inconsistent_fields)]
pub enum QueueInput {
    Post {
        id: u64,
        replace_key: Option<String>,
        priority: i32,
        /// 0 = sticky (never times out).
        timeout_ms: u32,
        scene: Scene,
        style: ResolvedStyle,
        anim: ResolvedAnimProfile,
    },
    /// Close whatever notification carries this replace key.
    Close { replace_key: String },
    /// Close a specific notification by id.
    CloseId { id: u64 },
    /// A timer wakeup: drives timeout expiry.
    Tick,
}

/// What the manager emits; the driver maps these onto render events.
#[derive(Debug)]
pub enum QueueOutput {
    /// Show a fresh surface.
    Show {
        id: u64,
        timeout_ms: u32,
        scene: Scene,
        style: ResolvedStyle,
        anim: ResolvedAnimProfile,
    },
    /// Replace the live surface's content in place.
    Morph {
        id: u64,
        timeout_ms: u32,
        scene: Scene,
        style: ResolvedStyle,
        anim: ResolvedAnimProfile,
    },
    /// Tear the surface down. `replace_key` echoes the closed notification's key, so that the
    /// daemon can route a `NotificationClosed` signal back to the right D-Bus id.
    Close { id: u64, reason: CloseReason, replace_key: Option<String> },
}

/// Why a surface is torn down.
#[derive(Clone, Copy, Debug, PartialEq, Eq, Structural)]
pub enum CloseReason {
    Timeout,
    Replaced,
    Explicit,
    Preempted,
}

struct Entry {
    id: u64,
    replace_key: Option<String>,
    priority: i32,
    timeout_ms: u32,
    scene: Scene,
    style: ResolvedStyle,
    anim: ResolvedAnimProfile,
    expires_at: Option<TimeMs>,
}

/// A notification held by the queue.
pub struct EntryView {
    pub id: u64,
    pub replace_key: Option<Seq<char>>,
    pub priority: i32,
    pub timeout_ms: u32,
    pub scene: SceneView,
    pub style: ResolvedStyle,
    pub anim: ResolvedAnimProfile,
    /// The deadline once shown and not sticky; none while sticky or waiting.
    pub expires_at: Option<u64>,
}

impl View for Entry {
    type V = EntryView;

    closed spec fn view(&self) -> EntryView {
        EntryView {
            id: self.id,
            replace_key: text::opt_text(self.replace_key),
            priority: self.priority,
            timeout_ms: self.timeout_ms,
            scene: self.scene@,
            style: self.style,
            anim: self.anim,
            expires_at: self.expires_at,
        }
    }
}

/// The view of a [`QueueInput`].
pub enum QueueInputView {
    Post(EntryView),
    Close { replace_key: Seq<char> },
    CloseId { id: u64 },
    Tick,
}

impl View for QueueInput {
    type V = QueueInputView;

    open spec fn view(&self) -> QueueInputView {
        match *self {
            QueueInput::Post { id, replace_key, priority, timeout_ms, scene, style, anim } =>
            QueueInputView::Post(
                EntryView {
                    id,
                    replace_key: text::opt_text(replace_key),
                    priority,
                    timeout_ms,
                    scene: scene@,
                    style,
                    anim,
                    expires_at: None,
                },
            ),
            QueueInput::Close { replace_key } => QueueInputView::Close {
                replace_key: replace_key@,
            },
            QueueInput::CloseId { id } => QueueInputView::CloseId { id },
            QueueInput::Tick => QueueInputView::Tick,
        }
    }
}

/// The view of a [`QueueOutput`].
pub enum QueueOutputView {
    Show {
        id: u64,
        timeout_ms: u32,
        scene: SceneView,
        style: ResolvedStyle,
        anim: ResolvedAnimProfile,
    },
    Morph {
        id: u64,
        timeout_ms: u32,
        scene: SceneView,
        style: ResolvedStyle,
        anim: ResolvedAnimProfile,
    },
    Close { id: u64, reason: CloseReason, replace_key: Option<Seq<char>> },
}

impl View for QueueOutput {
    type V = QueueOutputView;

    open spec fn view(&self) -> QueueOutputView {
        match *self {
            QueueOutput::Show { id, timeout_ms, scene, style, anim } => QueueOutputView::Show {
                id,
                timeout_ms,
                scene: scene@,
                style,
                anim,
            },
            QueueOutput::Morph { id, timeout_ms, scene, style, anim } => QueueOutputView::Morph {
                id,
                timeout_ms,
                scene: scene@,
                style,
                anim,
            },
            QueueOutput::Close { id, reason, replace_key } => QueueOutputView::Close {
                id,
                reason,
                replace_key: text::opt_text(replace_key),
            },
        }
    }
}

/// The views of a list of outputs.
pub open spec fn output_views(v: Seq<QueueOutput>) -> Seq<QueueOutputView> {
    v.map_values(|o: QueueOutput| o@)
}

/// The state of the queue: who owns the surface, and who waits for it, next first.
pub struct QueueView {
    pub settings: QueueSettings,
    pub live: Option<EntryView>,
    pub waiting: Seq<EntryView>,
}

// ---- what each input does ----------------------------------------------------------------

/// When a notification shown at `now` expires: never when sticky.
pub open spec fn deadline_spec(now: u64, timeout_ms: u32) -> Option<u64> {
    if timeout_ms > 0 {
        Some((now + timeout_ms) as u64)
    } else {
        None
    }
}

/// A notification as it stands once shown at `now`.
pub open spec fn shown(e: EntryView, now: u64) -> EntryView {
    EntryView { expires_at: deadline_spec(now, e.timeout_ms), ..e }
}

/// A notification as it stands while it waits.
pub open spec fn parked(e: EntryView) -> EntryView {
    EntryView { expires_at: None, ..e }
}

/// The output that shows `e`.
pub open spec fn show_output(e: EntryView) -> QueueOutputView {
    QueueOutputView::Show {
        id: e.id,
        timeout_ms: e.timeout_ms,
        scene: e.scene,
        style: e.style,
        anim: e.anim,
    }
}

/// The output that tears `e` down.
pub open spec fn close_output(e: EntryView, reason: CloseReason) -> QueueOutputView {
    QueueOutputView::Close { id: e.id, reason, replace_key: e.replace_key }
}

/// How many notifications at the front of `s` have at least this priority.
pub open spec fn insertion_point(s: Seq<EntryView>, priority: i32) -> int
    decreases s.len(),
{
    if s.len() > 0 && s[0].priority >= priority {
        1 + insertion_point(s.skip(1), priority)
    } else {
        0
    }
}

/// The notifications by falling priority, those of equal priority in their order in `s`.
pub open spec fn by_priority(s: Seq<EntryView>) -> Seq<EntryView>
    decreases s.len(),
{
    if s.len() == 0 {
        s
    } else {
        let front = by_priority(s.drop_last());
        front.insert(insertion_point(front, s.last().priority), s.last())
    }
}

/// The waiting notifications once `e` has joined them.
pub open spec fn park_spec(
    policy: QueuePolicy,
    waiting: Seq<EntryView>,
    e: EntryView,
) -> Seq<EntryView> {
    match policy {
        QueuePolicy::PriorityPreempt => by_priority(waiting.push(parked(e))),
        QueuePolicy::Fifo => waiting.push(parked(e)),
    }
}

/// Whether `e` waits under the replace key `key`.
pub open spec fn has_key(e: EntryView, key: Seq<char>) -> bool {
    e.replace_key == Some(key)
}

/// The least position at or after `from` whose notification carries `key`, or the length.
pub open spec fn find_key(s: Seq<EntryView>, key: Seq<char>, from: int) -> int
    decreases s.len() - from,
{
    if from >= s.len() {
        s.len() as int
    } else if has_key(s[from], key) {
        from
    } else {
        find_key(s, key, from + 1)
    }
}

/// Whether a post of `e` updates the live notification in place.
pub open spec fn coalesces_live(q: QueueView, e: EntryView) -> bool {
    &&& q.settings.coalesce_replace
    &&& e.replace_key is Some
    &&& q.live is Some
    &&& has_key(q.live->0, e.replace_key->0)
}

/// Whether a post of `e` silently replaces a waiting notification.
pub open spec fn coalesces_waiting(q: QueueView, e: EntryView) -> bool {
    &&& q.settings.coalesce_replace
    &&& e.replace_key is Some
    &&& !coalesces_live(q, e)
    &&& find_key(q.waiting, e.replace_key->0, 0) < q.waiting.len()
}

/// Whether a fresh `e` takes the surface from the live notification.
pub open spec fn preempts(q: QueueView, e: EntryView) -> bool {
    &&& q.settings.policy == QueuePolicy::PriorityPreempt
    &&& q.live is Some
    &&& e.priority > q.live->0.priority
}

/// What posting `e` does.
pub open spec fn post_spec(q: QueueView, e: EntryView, now: u64) -> (
    QueueView,
    Seq<QueueOutputView>,
) {
    if coalesces_live(q, e) {
        let live = EntryView { id: q.live->0.id, ..shown(e, now) };
        (
            QueueView { live: Some(live), ..q },
            seq![
                QueueOutputView::Morph {
                    id: live.id,
                    timeout_ms: live.timeout_ms,
                    scene: live.scene,
                    style: live.style,
                    anim: live.anim,
                },
            ],
        )
    } else if coalesces_waiting(q, e) {
        (
            QueueView {
                waiting: q.waiting.update(find_key(q.waiting, e.replace_key->0, 0), parked(e)),
                ..q
            },
            Seq::empty(),
        )
    } else if q.live is None {
        (QueueView { live: Some(shown(e, now)), ..q }, seq![show_output(e)])
    } else if preempts(q, e) {
        (
            QueueView {
                live: Some(shown(e, now)),
                waiting: park_spec(q.settings.policy, q.waiting, q.live->0),
                ..q
            },
            seq![close_output(q.live->0, CloseReason::Preempted), show_output(e)],
        )
    } else {
        (
            QueueView { waiting: park_spec(q.settings.policy, q.waiting, e), ..q },
            Seq::empty(),
        )
    }
}

/// What giving up the surface does: the next in line is shown, if anyone waits.
pub open spec fn promote_next_spec(q: QueueView, now: u64) -> (QueueView, Seq<QueueOutputView>) {
    if q.waiting.len() == 0 {
        (QueueView { live: None, ..q }, Seq::empty())
    } else {
        (
            QueueView {
                live: Some(shown(q.waiting[0], now)),
                waiting: q.waiting.skip(1),
                ..q
            },
            seq![show_output(q.waiting[0])],
        )
    }
}

/// The queue under other settings.
pub open spec fn with_settings(q: QueueView, settings: QueueSettings) -> QueueView {
    QueueView { settings, ..q }
}

/// What a close request names.
pub enum Target {
    Key(Seq<char>),
    Id(u64),
}

/// Whether a close request names `e`.
pub open spec fn names(t: Target, e: EntryView) -> bool {
    match t {
        Target::Key(k) => has_key(e, k),
        Target::Id(id) => e.id == id,
    }
}

/// What a close request does: it tears the live notification down if it names it, and else drops
/// every waiting notification that it names.
pub open spec fn close_spec(q: QueueView, t: Target, now: u64) -> (
    QueueView,
    Seq<QueueOutputView>,
) {
    if q.live is Some && names(t, q.live->0) {
        let next = promote_next_spec(q, now);
        (next.0, seq![close_output(q.live->0, CloseReason::Explicit)] + next.1)
    } else {
        (
            QueueView { waiting: q.waiting.filter(|e: EntryView| !names(t, e)), ..q },
            Seq::empty(),
        )
    }
}

/// Whether the live notification has run out at `now`.
pub open spec fn expired(q: QueueView, now: u64) -> bool {
    q.live is Some && q.live->0.expires_at is Some && q.live->0.expires_at->0 <= now
}

/// What a timer wakeup does.
pub open spec fn tick_spec(q: QueueView, now: u64) -> (QueueView, Seq<QueueOutputView>) {
    if expired(q, now) {
        let next = promote_next_spec(q, now);
        (next.0, seq![close_output(q.live->0, CloseReason::Timeout)] + next.1)
    } else {
        (q, Seq::empty())
    }
}

/// What one input does at `now`: the state that follows, and what is emitted.
pub open spec fn step(q: QueueView, input: QueueInputView, now: u64) -> (
    QueueView,
    Seq<QueueOutputView>,
) {
    match input {
        QueueInputView::Post(e) => post_spec(q, e, now),
        QueueInputView::Close { replace_key } => close_spec(q, Target::Key(replace_key), now),
        QueueInputView::CloseId { id } => close_spec(q, Target::Id(id), now),
        QueueInputView::Tick => tick_spec(q, now),
    }
}

// ---- the machine -------------------------------------------------------------------------

/// The queue.
pub struct QueueManager {
    settings: QueueSettings,
    live: Option<Entry>,
    waiting: Vec<Entry>,
}

spec fn entry_views(v: Seq<Entry>) -> Seq<EntryView> {
    v.map_values(|e: Entry| e@)
}

impl View for QueueManager {
    type V = QueueView;

    closed spec fn view(&self) -> QueueView {
        QueueView {
            settings: self.settings,
            live: match self.live {
                Some(e) => Some(e@),
                None => None,
            },
            waiting: entry_views(self.waiting@),
        }
    }
}

/// `None` for a sticky (timeout 0) notification; otherwise `now + timeout`.
pub fn deadline(now: TimeMs, timeout_ms: u32) -> (r: Option<TimeMs>)
    requires
        now + timeout_ms <= u64::MAX,
    ensures
        r == deadline_spec(now, timeout_ms),
{
    if timeout_ms > 0 {
        Some(now + timeout_ms as u64)
    } else {
        None
    }
}

fn same_key(a: &Option<String>, key: &str) -> (r: bool)
    ensures
        r == (text::opt_text(*a) == Some(key@)),
{
    text::opt_is(a, key)
}

impl Entry {
    fn show(&self) -> (r: QueueOutput)
        ensures
            r@ == show_output(self@),
    {
        QueueOutput::Show {
            id: self.id,
            timeout_ms: self.timeout_ms,
            scene: self.scene.clone(),
            style: self.style.clone(),
            anim: self.anim,
        }
    }

    fn close(&self, reason: CloseReason) -> (r: QueueOutput)
        ensures
            r@ == close_output(self@, reason),
    {
        QueueOutput::Close { id: self.id, reason, replace_key: self.replace_key.clone() }
    }
}

/// `insertion_point` counts exactly the leading notifications of at least that priority.
pub proof fn lemma_insertion_point(s: Seq<EntryView>, priority: i32)
    ensures
        0 <= insertion_point(s, priority) <= s.len(),
        forall|i: int|
            0 <= i < insertion_point(s, priority) ==> (#[trigger] s[i]).priority >= priority,
        insertion_point(s, priority) < s.len() ==> s[insertion_point(s, priority)].priority
            < priority,
    decreases s.len(),
{
    if s.len() > 0 && s[0].priority >= priority {
        lemma_insertion_point(s.skip(1), priority);
        assert forall|i: int| 0 <= i < insertion_point(s, priority) implies (#[trigger] s[i]).priority
            >= priority by {
            if i > 0 {
                assert(s[i] == s.skip(1)[i - 1]);
            }
        }
    }
}

pub proof fn lemma_insertion_point_is(s: Seq<EntryView>, priority: i32, n: int)
    requires
        0 <= n <= s.len(),
        forall|i: int| 0 <= i < n ==> (#[trigger] s[i]).priority >= priority,
        n < s.len() ==> s[n].priority < priority,
    ensures
        insertion_point(s, priority) == n,
{
    lemma_insertion_point(s, priority);
    let m = insertion_point(s, priority);
    if m < n {
        assert(s[m].priority >= priority);
    }
    if n < m {
        assert(s[n].priority >= priority);
    }
}

/// Ordering by priority keeps the number of notifications.
pub proof fn lemma_by_priority_len(s: Seq<EntryView>)
    ensures
        by_priority(s).len() == s.len(),
    decreases s.len(),
{
    if s.len() > 0 {
        lemma_by_priority_len(s.drop_last());
        lemma_insertion_point(by_priority(s.drop_last()), s.last().priority);
    }
}

fn sort_by_priority(waiting: &mut Vec<Entry>)
    ensures
        entry_views(final(waiting)@) == by_priority(entry_views(old(waiting)@)),
{
    let ghost start = entry_views(waiting@);
    let mut i: usize = 0;
    assert(by_priority(start.take(0)) =~= Seq::empty());
    assert(entry_views(waiting@).take(0) =~= Seq::empty());
    while i < waiting.len()
        invariant
            i <= waiting@.len(),
            waiting@.len() == start.len(),
            entry_views(waiting@).take(i as int) == by_priority(start.take(i as int)),
            entry_views(waiting@).skip(i as int) == start.skip(i as int),
        decreases waiting@.len() - i,
    {
        let ghost before = entry_views(waiting@);
        let ghost front = before.take(i as int);
        let p = waiting[i].priority;
        let mut n: usize = 0;
        while n < i && waiting[n].priority >= p
            invariant
                n <= i < waiting@.len(),
                front == entry_views(waiting@).take(i as int),
                forall|j: int| 0 <= j < n ==> (#[trigger] front[j]).priority >= p,
            decreases i - n,
        {
            assert(front[n as int] == waiting@[n as int]@);
            n = n + 1;
        }
        proof {
            if n < i {
                assert(front[n as int] == waiting@[n as int]@);
            }
            lemma_insertion_point_is(front, p, n as int);
        }
        let e = waiting.remove(i);
        let ghost moved = e@;
        waiting.insert(n, e);
        proof {
            let after = entry_views(waiting@);
            assert(moved == before[i as int]);
            assert(before[i as int] == before.skip(i as int)[0]);
            assert(start[i as int] == start.skip(i as int)[0]);
            let t = start.take(i + 1);
            assert(t.drop_last() =~= start.take(i as int));
            assert(t.last() == moved);
            assert(after.take(i + 1) =~= front.insert(n as int, moved));
            assert(after.skip(i + 1) =~= before.skip(i + 1));
            assert(before.skip(i + 1) =~= before.skip(i as int).skip(1));
            assert(start.skip(i + 1) =~= start.skip(i as int).skip(1));
        }
        i = i + 1;
    }
    proof {
        assert(start.take(i as int) =~= start);
        assert(entry_views(waiting@).take(i as int) =~= entry_views(waiting@));
    }
}

/// What a close request names, as data.
enum Named<'a> {
    Key(&'a str),
    Id(u64),
}

impl<'a> Named<'a> {
    spec fn target(self) -> Target {
        match self {
            Named::Key(k) => Target::Key(k@),
            Named::Id(id) => Target::Id(id),
        }
    }

    fn names(&self, e: &Entry) -> (r: bool)
        ensures
            r == names(self.target(), e@),
    {
        match self {
            Named::Key(k) => same_key(&e.replace_key, k),
            Named::Id(id) => e.id == *id,
        }
    }
}

impl QueueManager {
    /// An idle queue.
    pub fn new(settings: QueueSettings) -> (r: Self)
        ensures
            r@ == (QueueView { settings, live: None, waiting: Seq::empty() }),
    {
        let r = QueueManager { settings, live: None, waiting: Vec::new() };
        assert(r@.waiting =~= Seq::empty());
        r
    }

    /// Applies new settings (e.g. after a config reload). Takes effect on the next input.
    pub fn set_settings(&mut self, settings: QueueSettings)
        ensures
            final(self)@ == (QueueView { settings, ..old(self)@ }),
            final(self)@ == with_settings(old(self)@, settings),
    {
        self.settings = settings;
    }

    /// The next timer deadline the driver should arm, if any.
    pub fn next_deadline(&self) -> (r: Option<TimeMs>)
        ensures
            r == (match self@.live {
                Some(e) => e.expires_at,
                None => None,
            }),
    {
        match &self.live {
            Some(e) => e.expires_at,
            None => None,
        }
    }

    /// Drives the machine with one input at logical time `now`. Returns the outputs to emit.
    pub fn handle(&mut self, input: QueueInput, now: TimeMs) -> (r: Vec<QueueOutput>)
        requires
            now + u32::MAX <= u64::MAX,
        ensures
            (final(self)@, output_views(r@)) == step(old(self)@, input@, now),
    {
        match input {
            QueueInput::Post { id, replace_key, priority, timeout_ms, scene, style, anim } => {
                let entry = Entry {
                    id,
                    replace_key,
                    priority,
                    timeout_ms,
                    scene,
                    style,
                    anim,
                    expires_at: None,
                };
                assert(input@ == QueueInputView::Post(entry@));
                self.post(now, entry)
            },
            QueueInput::Close { replace_key } => self.close_matching(
                now,
                Named::Key(replace_key.as_str()),
            ),
            QueueInput::CloseId { id } => self.close_matching(now, Named::Id(id)),
            QueueInput::Tick => self.tick(now),
        }
    }

    fn post(&mut self, now: TimeMs, entry: Entry) -> (r: Vec<QueueOutput>)
        requires
            now + u32::MAX <= u64::MAX,
        ensures
            (final(self)@, output_views(r@)) == post_spec(old(self)@, entry@, now),
    {
        let ghost q = self@;
        let ghost e = entry@;
        let mut out: Vec<QueueOutput> = Vec::new();
        // Coalesce by replace key.
        if self.settings.coalesce_replace {
            if let Some(key) = &entry.replace_key {
                let on_live = match &self.live {
                    Some(live) => same_key(&live.replace_key, key.as_str()),
                    None => false,
                };
                if on_live {
                    if let Some(live) = self.live.take() {
                        let expires_at = deadline(now, entry.timeout_ms);
                        out.push(
                            QueueOutput::Morph {
                                id: live.id,
                                timeout_ms: entry.timeout_ms,
                                scene: entry.scene.clone(),
                                style: entry.style.clone(),
                                anim: entry.anim,
                            },
                        );
                        self.live = Some(
                            Entry {
                                id: live.id,
                                replace_key: live.replace_key,
                                priority: entry.priority,
                                timeout_ms: entry.timeout_ms,
                                scene: entry.scene,
                                style: entry.style,
                                anim: entry.anim,
                                expires_at,
                            },
                        );
                    }
                    assert(output_views(out@) =~= post_spec(q, e, now).1);
                    return out;
                }
                // A waiting entry with the same key is replaced silently: it is not visible yet.
                let slot = self.find_waiting(key.as_str());
                if slot < self.waiting.len() {
                    let waiter = Entry { expires_at: None, ..entry };
                    assert(waiter@ == parked(e));
                    self.waiting.set(slot, waiter);
                    proof {
                        assert(self@.waiting =~= q.waiting.update(slot as int, parked(e)));
                        assert(output_views(out@) =~= Seq::empty());
                    }
                    return out;
                }
            }
        }
        match self.live.take() {
            None => {
                self.promote(now, entry, &mut out);
                assert(output_views(out@) =~= seq![show_output(e)]);
            },
            Some(live) => {
                if self.settings.policy == QueuePolicy::PriorityPreempt && entry.priority
                    > live.priority {
                    out.push(live.close(CloseReason::Preempted));
                    self.park(live);
                    self.promote(now, entry, &mut out);
                    assert(output_views(out@) =~= seq![
                        close_output(q.live->0, CloseReason::Preempted),
                        show_output(e),
                    ]);
                } else {
                    // The live one keeps the surface; the new one waits.
                    self.live = Some(live);
                    self.park(entry);
                    assert(output_views(out@) =~= Seq::empty());
                }
            },
        }
        out
    }

    fn find_waiting(&self, key: &str) -> (r: usize)
        ensures
            r == find_key(self@.waiting, key@, 0),
            r <= self.waiting@.len(),
    {
        let mut i: usize = 0;
        while i < self.waiting.len()
            invariant
                i <= self.waiting@.len(),
                find_key(self@.waiting, key@, 0) == find_key(self@.waiting, key@, i as int),
            decreases self.waiting@.len() - i,
        {
            assert(self@.waiting[i as int] == self.waiting@[i as int]@);
            if same_key(&self.waiting[i].replace_key, key) {
                return i;
            }
            i = i + 1;
        }
        i
    }

    /// Makes `entry` the live surface and emits its `Show`.
    fn promote(&mut self, now: TimeMs, entry: Entry, out: &mut Vec<QueueOutput>)
        requires
            now + u32::MAX <= u64::MAX,
        ensures
            final(self)@ == (QueueView { live: Some(shown(entry@, now)), ..old(self)@ }),
            output_views(final(out)@) == output_views(old(out)@).push(show_output(entry@)),
    {
        out.push(entry.show());
        let expires_at = deadline(now, entry.timeout_ms);
        let ghost e = entry@;
        let live = Entry { expires_at, ..entry };
        assert(live@ == shown(e, now));
        self.live = Some(live);
        assert(output_views(out@) =~= output_views(old(out)@).push(show_output(e)));
    }

    /// Parks an entry among the waiting, ordered by policy.
    fn park(&mut self, entry: Entry)
        ensures
            final(self)@ == (QueueView {
                waiting: park_spec(old(self)@.settings.policy, old(self)@.waiting, entry@),
                ..old(self)@
            }),
    {
        let ghost e = entry@;
        let waiter = Entry { expires_at: None, ..entry };
        assert(waiter@ == parked(e));
        self.waiting.push(waiter);
        assert(entry_views(self.waiting@) =~= old(self)@.waiting.push(parked(e)));
        if self.settings.policy == QueuePolicy::PriorityPreempt {
            sort_by_priority(&mut self.waiting);
        }
    }

    /// Shows the next waiting entry (the front: already ordered by policy), if there is one.
    fn promote_next(&mut self, now: TimeMs, out: &mut Vec<QueueOutput>)
        requires
            now + u32::MAX <= u64::MAX,
        ensures
            final(self)@ == promote_next_spec(old(self)@, now).0,
            output_views(final(out)@) == output_views(old(out)@) + promote_next_spec(
                old(self)@,
                now,
            ).1,
    {
        if self.waiting.len() == 0 {
            self.live = None;
            assert(output_views(out@) =~= output_views(out@) + Seq::<QueueOutputView>::empty());
            return;
        }
        let next = self.waiting.remove(0);
        assert(next@ == old(self)@.waiting[0]);
        assert(self@.waiting =~= old(self)@.waiting.skip(1));
        self.promote(now, next, out);
        assert(output_views(out@) =~= output_views(old(out)@) + promote_next_spec(
            old(self)@,
            now,
        ).1);
    }

    fn close_matching(&mut self, now: TimeMs, target: Named) -> (r: Vec<QueueOutput>)
        requires
            now + u32::MAX <= u64::MAX,
        ensures
            (final(self)@, output_views(r@)) == close_spec(old(self)@, target.target(), now),
    {
        let ghost q = self@;
        let ghost t = target.target();
        let mut out: Vec<QueueOutput> = Vec::new();
        let on_live = match &self.live {
            Some(live) => target.names(live),
            None => false,
        };
        if on_live {
            if let Some(live) = self.live.take() {
                out.push(live.close(CloseReason::Explicit));
                assert(output_views(out@) =~= seq![close_output(q.live->0, CloseReason::Explicit)]);
                self.promote_next(now, &mut out);
            }
            return out;
        }
        // Otherwise drop any waiting match silently.
        self.drop_waiting(&target);
        assert(output_views(out@) =~= Seq::empty());
        out
    }

    fn drop_waiting(&mut self, target: &Named)
        ensures
            final(self)@ == (QueueView {
                waiting: old(self)@.waiting.filter(
                    |e: EntryView| !names(target.target(), e),
                ),
                ..old(self)@
            }),
    {
        let ghost start = self@.waiting;
        let ghost keep = |e: EntryView| !names(target.target(), e);
        let mut rest: Vec<Entry> = Vec::new();
        std::mem::swap(&mut rest, &mut self.waiting);
        let mut kept: Vec<Entry> = Vec::new();
        proof {
            reveal(Seq::filter);
            assert(entry_views(kept@) =~= Seq::empty());
            assert(start.take(0).filter(keep) =~= Seq::empty());
            assert(start.skip(0) =~= start);
        }
        let ghost mut done: int = 0;
        while rest.len() > 0
            invariant
                keep == (|e: EntryView| !names(target.target(), e)),
                0 <= done <= start.len(),
                entry_views(rest@) == start.skip(done),
                entry_views(kept@) == start.take(done).filter(keep),
            decreases rest@.len(),
        {
            let ghost before = entry_views(kept@);
            let ghost left = entry_views(rest@);
            assert(left.len() == rest@.len() && left.len() == start.len() - done);
            let e = rest.remove(0);
            proof {
                reveal(Seq::filter);
                assert(e@ == left[0]);
                assert(start.take(done + 1).drop_last() =~= start.take(done));
                assert(entry_views(rest@) =~= left.skip(1));
                assert(left.skip(1) =~= start.skip(done + 1));
            }
            let ghost v = e@;
            if !target.names(&e) {
                kept.push(e);
                assert(entry_views(kept@) =~= before.push(v));
            }
            proof {
                assert(keep(v) == !names(target.target(), v));
                done = done + 1;
            }
        }
        proof {
            assert(start.skip(done).len() == 0);
            assert(start.take(done) =~= start);
        }
        self.waiting = kept;
    }

    fn tick(&mut self, now: TimeMs) -> (r: Vec<QueueOutput>)
        requires
            now + u32::MAX <= u64::MAX,
        ensures
            (final(self)@, output_views(r@)) == tick_spec(old(self)@, now),
    {
        let ghost q = self@;
        let mut out: Vec<QueueOutput> = Vec::new();
        let over = match self.next_deadline() {
            Some(d) => d <= now,
            None => false,
        };
        if over {
            if let Some(live) = self.live.take() {
                out.push(live.close(CloseReason::Timeout));
                assert(output_views(out@) =~= seq![close_output(q.live->0, CloseReason::Timeout)]);
                self.promote_next(now, &mut out);
            }
            return out;
        }
        assert(output_views(out@) =~= Seq::empty());
        out
    }
}

} // verus!
