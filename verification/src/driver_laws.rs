//! What holds of the pipeline through every message.

use vstd::prelude::*;

use crate::bind;
use crate::driver;
use crate::driver::DriverView;
use crate::events;
use crate::events::NotificationEventView;
use crate::number;
use crate::number::Readings;
use crate::queue;
use crate::queue::{EntryView, QueueInputView, QueueOutputView};
use crate::queue_laws;
use crate::resolver;
use crate::scene;
use crate::sources;
use crate::sources::{FdSignalView, SourceMsg};
use crate::style;
use crate::template::TypeTemplate;
use crate::text;
use crate::RawView;

verus! {

/// A suppressed notification is answered with id 0; it changes nothing and nothing is shown.
pub proof fn suppressed_posts_change_nothing(
    d: DriverView,
    raw: RawView,
    now: u64,
    table: Readings,
)
    requires
        driver::suppressed(d, raw),
    ensures
        driver::post_spec(d, raw, now, table).0 == d,
        driver::post_spec(d, raw, now, table).1.reply == Some(Ok::<u64, Seq<char>>(0)),
        driver::post_spec(d, raw, now, table).1.events.len() == 0,
        driver::post_spec(d, raw, now, table).1.signals.len() == 0,
{
}

/// A rejected notification is answered with the reason; it changes nothing and nothing is shown.
/// Only a notification that lacks a required field is rejected.
pub proof fn rejected_posts_change_nothing(d: DriverView, raw: RawView, now: u64, table: Readings)
    ensures
        ({
            let r = driver::post_spec(d, raw, now, table);
            let rejected = !driver::suppressed(d, raw) && !driver::acceptable(d, raw, table);
            &&& r.1.reply is Some
            &&& r.1.reply->0 is Err <==> rejected
            &&& rejected ==> r.0 == d && r.1.events.len() == 0 && r.1.signals.len() == 0
        }),
{
}

/// Accepted notifications are numbered in order: each gets the next id, no id is given twice, and
/// nothing else uses one up.
pub proof fn ids_are_given_in_order(
    d: DriverView,
    msg: SourceMsg,
    now: u64,
    table: Readings,
)
    requires
        d.next_id < u64::MAX,
    ensures
        ({
            let r = driver::handle_spec(d, msg, now, table);
            let accepted = msg is Post && !driver::suppressed(d, msg->raw@) && driver::acceptable(
                d,
                msg->raw@,
                table,
            );
            &&& accepted ==> r.1.reply == Some(Ok::<u64, Seq<char>>(d.next_id)) && r.0.next_id
                == d.next_id + 1
            &&& !accepted ==> r.0.next_id == d.next_id
        }),
{
}

/// Messages from sources leave the configuration, the theme and the types alone.
pub proof fn messages_keep_the_configuration(
    d: DriverView,
    msg: SourceMsg,
    now: u64,
    table: Readings,
)
    ensures
        driver::handle_spec(d, msg, now, table).0.config == d.config,
        driver::handle_spec(d, msg, now, table).0.theme == d.theme,
        driver::handle_spec(d, msg, now, table).0.types == d.types,
{
}

/// Who owns the surface after the renderer has followed one event; none of it when the event does
/// not fit who owned it before.
pub open spec fn follow(owner: Option<u64>, e: NotificationEventView) -> Option<Option<u64>> {
    match e {
        NotificationEventView::Show { id, .. } => if owner is None {
            Some(Some(id))
        } else {
            None
        },
        NotificationEventView::Morph { id, .. } => if owner == Some(id) {
            Some(owner)
        } else {
            None
        },
        NotificationEventView::Close { id } => if owner == Some(id) {
            Some(None)
        } else {
            None
        },
        _ => Some(owner),
    }
}

/// Who owns the surface after the renderer has followed some events in order.
pub open spec fn replay(owner: Option<u64>, evs: Seq<NotificationEventView>) -> Option<Option<u64>>
    decreases evs.len(),
{
    if evs.len() == 0 {
        Some(owner)
    } else {
        match replay(owner, evs.drop_last()) {
            Some(s) => follow(s, evs.last()),
            None => None,
        }
    }
}

proof fn lemma_replay_events(owner: Option<u64>, outs: Seq<QueueOutputView>)
    ensures
        replay(owner, driver::events_of(outs)) == queue_laws::replay(owner, outs),
    decreases outs.len(),
{
    if outs.len() > 0 {
        lemma_replay_events(owner, outs.drop_last());
        assert(driver::events_of(outs).drop_last() =~= driver::events_of(outs.drop_last()));
        assert(driver::events_of(outs).last() == events::event_of(outs.last()));
    }
}

/// The events sent to the renderer always fit the surface that is there: it shows exactly the
/// queue's live notification.
pub proof fn events_keep_a_single_surface(
    d: DriverView,
    msg: SourceMsg,
    now: u64,
    table: Readings,
)
    ensures
        ({
            let r = driver::handle_spec(d, msg, now, table);
            replay(queue_laws::surface(d.queue), r.1.events) == Some(
                queue_laws::surface(r.0.queue),
            )
        }),
        ({
            let r = driver::queue_step(d, QueueInputView::Tick, now);
            replay(queue_laws::surface(d.queue), r.1.events) == Some(
                queue_laws::surface(r.0.queue),
            )
        }),
{
    let owner = queue_laws::surface(d.queue);
    lemma_replay_events(owner, Seq::empty());
    lemma_queue_step(d, QueueInputView::Tick, now);
    match msg {
        SourceMsg::Post { raw } => {
            if !driver::suppressed(d, raw@) && driver::acceptable(d, raw@, table) {
                lemma_queue_step(
                    d,
                    QueueInputView::Post(driver::entry_of(d, raw@, table)),
                    now,
                );
            }
        },
        SourceMsg::Close { replace_key } => {
            lemma_queue_step(d, QueueInputView::Close { replace_key: replace_key@ }, now);
        },
        SourceMsg::ImageReady { key, image } => {
            let e = NotificationEventView::ImageReady { key: key@, image };
            assert(seq![e].drop_last() =~= Seq::empty());
            assert(replay(owner, Seq::empty()) == Some(owner));
            assert(replay(owner, seq![e]) == follow(owner, e));
        },
        SourceMsg::ConfigChanged(_) => {},
    }
}

proof fn lemma_queue_step(d: DriverView, input: QueueInputView, now: u64)
    ensures
        replay(
            queue_laws::surface(d.queue),
            driver::events_of(queue::step(d.queue, input, now).1),
        ) == Some(queue_laws::surface(queue::step(d.queue, input, now).0)),
{
    queue_laws::outputs_keep_a_single_surface(d.queue, input, now);
    lemma_replay_events(queue_laws::surface(d.queue), queue::step(d.queue, input, now).1);
}

/// Whether a signal reports the close of the D-Bus notification `id`.
pub open spec fn reports(s: FdSignalView, id: u32) -> bool {
    s is Closed && s->Closed_id == id
}

/// Whether an output closes the notification that came in over D-Bus under `id`.
pub open spec fn closes(o: QueueOutputView, id: u32) -> bool {
    o is Close && sources::fd_id_spec(o->Close_replace_key) == Some(id)
}

/// D-Bus hears of every notification of its own that leaves the surface, and of no other: a signal
/// is sent for an id exactly when a notification under that id's replace key is closed.
pub proof fn dbus_closes_are_reported(outs: Seq<QueueOutputView>, id: u32)
    ensures
        (exists|i: int| 0 <= i < outs.len() && closes(#[trigger] outs[i], id)) <==> (exists|j: int|
            0 <= j < driver::signals_of(outs).len() && reports(
                #[trigger] driver::signals_of(outs)[j],
                id,
            )),
    decreases outs.len(),
{
    if outs.len() > 0 {
        let front = outs.drop_last();
        let a = driver::signals_of(front);
        let b = driver::signals_of(outs);
        dbus_closes_are_reported(front, id);
        if exists|i: int| 0 <= i < outs.len() && closes(#[trigger] outs[i], id) {
            let i = choose|i: int| 0 <= i < outs.len() && closes(#[trigger] outs[i], id);
            if i < front.len() {
                assert(closes(front[i], id));
                let j = choose|j: int| 0 <= j < a.len() && reports(#[trigger] a[j], id);
                assert(reports(b[j], id));
            } else {
                assert(reports(b[b.len() - 1], id));
            }
        }
        if exists|j: int| 0 <= j < b.len() && reports(#[trigger] b[j], id) {
            let j = choose|j: int| 0 <= j < b.len() && reports(#[trigger] b[j], id);
            if j < a.len() {
                assert(reports(a[j], id));
                let i = choose|i: int| 0 <= i < front.len() && closes(#[trigger] front[i], id);
                assert(closes(outs[i], id));
            } else {
                assert(closes(outs[outs.len() - 1], id));
            }
        }
    }
}

/// Posting depends on the table only through what it looks up.
pub proof fn posting_depends_on_its_texts(
    d: DriverView,
    raw: RawView,
    now: u64,
    a: Readings,
    b: Readings,
)
    requires
        forall|t: Seq<char>| #[trigger]
            driver::post_reads(d, raw, a, t) ==> number::reading(a, t) == number::reading(b, t),
    ensures
        driver::post_spec(d, raw, now, a) == driver::post_spec(d, raw, now, b),
{
    let tpl = driver::template_of(d, raw);
    assert forall|t: Seq<char>| #[trigger] bind::bind_reads(tpl.schema(), raw.fields, t) implies
        number::reading(a, t) == number::reading(b, t) by {
        assert(driver::post_reads(d, raw, a, t));
    }
    bind::binding_depends_on_its_texts(tpl.schema(), raw.fields, a, b);
    if driver::acceptable(d, raw, a) {
        let fields = bind::bound_fields(tpl.schema(), raw.fields, a);
        assert forall|t: Seq<char>| #[trigger] scene::build_reads(tpl.layout, fields, t) implies
            number::reading(a, t) == number::reading(b, t) by {
            assert(driver::post_reads(d, raw, a, t));
        }
        scene::building_depends_on_its_texts(tpl.layout, fields, a, b);
    } else {
        bind::binding_fails_on_one_field(tpl.schema(), raw.fields, a);
        bind::binding_fails_on_one_field(tpl.schema(), raw.fields, b);
        let name = choose|name: Seq<char>| bind::first_missing(tpl.schema(), raw.fields, a, name);
        assert(bind::first_missing(tpl.schema(), raw.fields, a, name));
        assert(bind::first_missing(tpl.schema(), raw.fields, b, name));
    }
}

/// Two rounds of readings suffice: once what binding looks up has been read, the texts that
/// posting looks up no longer depend on the table.
pub proof fn two_rounds_of_readings_suffice(
    d: DriverView,
    raw: RawView,
    a: Readings,
    b: Readings,
    t: Seq<char>,
)
    requires
        forall|x: Seq<char>| #[trigger]
            bind::bind_reads(driver::template_of(d, raw).schema(), raw.fields, x)
                ==> number::reading(a, x) == number::reading(b, x),
    ensures
        driver::post_reads(d, raw, a, t) == driver::post_reads(d, raw, b, t),
{
    bind::binding_depends_on_its_texts(driver::template_of(d, raw).schema(), raw.fields, a, b);
}

/// Only what comes in over D-Bus is suppressed, and only from an application that the
/// configuration lists, in whatever case.
pub proof fn only_listed_players_are_suppressed(d: DriverView, raw: RawView)
    ensures
        ({
            let listed = d.config.sources.mpris.suppress_freedesktop_from@;
            driver::suppressed(d, raw) <==> raw.source == crate::SourceKind::FreeDesktop
                && exists|i: int|
                0 <= i < listed.len() && text::same_ignoring_case(
                    #[trigger] listed[i]@,
                    raw.app_name,
                )
        }),
{
}

/// Whether `e` is what a notification of the type `t` is filed as: its own replace key before that
/// of the type, the type's overrides before its header, its scene built from its bound fields.
pub open spec fn filed_as(
    d: DriverView,
    t: TypeTemplate,
    raw: RawView,
    table: Readings,
    e: EntryView,
) -> bool {
    &&& e.id == d.next_id
    &&& raw.replace_key is Some ==> e.replace_key == raw.replace_key
    &&& raw.replace_key is None && t.meta.replace_key is Some ==> e.replace_key == Some(
        t.meta.replace_key->0@,
    )
    &&& raw.replace_key is None && t.meta.replace_key is None ==> e.replace_key is None
    &&& t.overrides is Some && t.overrides->0.priority is Some ==> e.priority
        == t.overrides->0.priority->0
    &&& !(t.overrides is Some && t.overrides->0.priority is Some) ==> e.priority == t.meta.priority
    &&& t.overrides is Some && t.overrides->0.timeout_ms is Some ==> e.timeout_ms
        == t.overrides->0.timeout_ms->0
    &&& !(t.overrides is Some && t.overrides->0.timeout_ms is Some) ==> e.timeout_ms
        == t.meta.timeout_ms
    &&& e.scene == scene::build_spec(
        t.layout,
        bind::bound_fields(t.schema(), raw.fields, table),
        table,
    )
    &&& e.style == style::style_spec(d.theme, t.overrides)
    &&& e.anim == style::anim_spec(d.theme, t.meta.anim_profile@, t.overrides)
    &&& e.expires_at is None
}

/// An accepted notification goes into the queue as what it asked for: it is resolved by its
/// requested type and its source, bound, built, styled and posted under the next id. What the queue
/// answers is what is sent.
pub proof fn posts_are_filed_as_asked(d: DriverView, raw: RawView, now: u64, table: Readings)
    requires
        !driver::suppressed(d, raw),
        bind::complete(
            resolver::resolve_spec(d.types, raw.requested_type, raw.source).schema(),
            raw.fields,
            table,
        ),
        d.next_id < u64::MAX,
    ensures
        exists|e: EntryView|
            {
                let t = resolver::resolve_spec(d.types, raw.requested_type, raw.source);
                let s = #[trigger] queue::step(d.queue, QueueInputView::Post(e), now);
                let r = driver::post_spec(d, raw, now, table);
                &&& filed_as(d, t, raw, table, e)
                &&& r.0.queue == s.0
                &&& r.1.events == driver::events_of(s.1)
                &&& r.1.signals == driver::signals_of(s.1)
                &&& r.1.reply == Some(Ok::<u64, Seq<char>>(d.next_id))
                &&& r.1.reload is None
                &&& r.0.next_id == d.next_id + 1
            },
{
    let e = driver::entry_of(d, raw, table);
    let t = resolver::resolve_spec(d.types, raw.requested_type, raw.source);
    assert(filed_as(d, t, raw, table, e));
    let s = queue::step(d.queue, QueueInputView::Post(e), now);
}

/// What is posted while nothing is shown or waits reaches the renderer as one `Show` that carries
/// its scene, style, springs and timeout.
pub proof fn posts_at_rest_are_shown(d: DriverView, raw: RawView, now: u64, table: Readings)
    requires
        !driver::suppressed(d, raw),
        bind::complete(
            resolver::resolve_spec(d.types, raw.requested_type, raw.source).schema(),
            raw.fields,
            table,
        ),
        d.next_id < u64::MAX,
        d.queue.live is None,
        d.queue.waiting.len() == 0,
        now + u32::MAX <= u64::MAX,
    ensures
        exists|e: EntryView|
            {
                let evs = driver::post_spec(d, raw, now, table).1.events;
                &&& #[trigger] filed_as(
                    d,
                    resolver::resolve_spec(d.types, raw.requested_type, raw.source),
                    raw,
                    table,
                    e,
                )
                &&& evs.len() == 1
                &&& evs[0] == (NotificationEventView::Show {
                    id: e.id,
                    timeout_ms: e.timeout_ms,
                    scene: e.scene,
                    style: e.style,
                    anim: e.anim,
                })
            },
{
    posts_are_filed_as_asked(d, raw, now, table);
    let t = resolver::resolve_spec(d.types, raw.requested_type, raw.source);
    let e = driver::entry_of(d, raw, table);
    assert(filed_as(d, t, raw, table, e));
    queue_laws::posts_on_a_free_surface_are_shown(d.queue, e, now);
    let outs = queue::step(d.queue, QueueInputView::Post(e), now).1;
    assert(driver::events_of(outs)[0] == events::event_of(outs[0]));
}

/// A notification that lacks a required field is answered with the field and the type that
/// requires it.
pub proof fn rejections_say_what_is_missing(
    d: DriverView,
    raw: RawView,
    now: u64,
    table: Readings,
    name: Seq<char>,
)
    requires
        !driver::suppressed(d, raw),
        bind::first_missing(
            resolver::resolve_spec(d.types, raw.requested_type, raw.source).schema(),
            raw.fields,
            table,
            name,
        ),
    ensures
        driver::post_spec(d, raw, now, table).1.reply == Some(
            Err::<u64, Seq<char>>(
                "field '"@ + name + "' is required by type '"@ + resolver::resolve_spec(
                    d.types,
                    raw.requested_type,
                    raw.source,
                ).meta.name@ + "'"@,
            ),
        ),
{
    let t = resolver::resolve_spec(d.types, raw.requested_type, raw.source);
    bind::binding_fails_on_one_field(t.schema(), raw.fields, table);
    let field = choose|x: Seq<char>| bind::first_missing(t.schema(), raw.fields, table, x);
    assert(field == name);
}

/// A close request and a wakeup go to the queue as they are, with nothing to answer.
pub proof fn closes_and_wakeups_go_to_the_queue(
    d: DriverView,
    replace_key: String,
    now: u64,
    table: Readings,
)
    ensures
        ({
            let r = driver::handle_spec(d, SourceMsg::Close { replace_key }, now, table);
            let s = queue::step(d.queue, QueueInputView::Close { replace_key: replace_key@ }, now);
            &&& r.0.queue == s.0
            &&& r.1.events == driver::events_of(s.1)
            &&& r.1.signals == driver::signals_of(s.1)
            &&& r.1.reply is None
            &&& r.1.reload is None
        }),
        ({
            let r = driver::queue_step(d, QueueInputView::Tick, now);
            let s = queue::step(d.queue, QueueInputView::Tick, now);
            &&& r.0.queue == s.0
            &&& r.0.next_id == d.next_id
            &&& r.0.config == d.config
            &&& r.0.theme == d.theme
            &&& r.0.types == d.types
            &&& r.1.events == driver::events_of(s.1)
            &&& r.1.signals == driver::signals_of(s.1)
            &&& r.1.reply is None
            &&& r.1.reload is None
        }),
{
}

/// A delivered image goes to the renderer and a change on disk is to be loaded afresh; neither
/// changes the pipeline.
pub proof fn images_and_changes_pass_through(
    d: DriverView,
    key: String,
    image: crate::image::ImageData,
    which: sources::Reloaded,
    now: u64,
    table: Readings,
)
    ensures
        ({
            let r = driver::handle_spec(d, SourceMsg::ImageReady { key, image }, now, table);
            &&& r.0 == d
            &&& r.1.events.len() == 1
            &&& r.1.events[0] == (NotificationEventView::ImageReady { key: key@, image })
            &&& r.1.signals.len() == 0
            &&& r.1.reply is None
            &&& r.1.reload is None
        }),
        ({
            let r = driver::handle_spec(d, SourceMsg::ConfigChanged(which), now, table);
            &&& r.0 == d
            &&& r.1.events.len() == 0
            &&& r.1.signals.len() == 0
            &&& r.1.reply is None
            &&& r.1.reload == Some(which)
        }),
{
}

/// The renderer gets one event for each output of the queue, in the same order, each with what the
/// output carries.
pub proof fn events_follow_the_outputs(outs: Seq<QueueOutputView>, i: int)
    requires
        0 <= i < outs.len(),
    ensures
        driver::events_of(outs).len() == outs.len(),
        match outs[i] {
            QueueOutputView::Show { id, timeout_ms, scene, style, anim } => driver::events_of(
                outs,
            )[i] == (NotificationEventView::Show { id, timeout_ms, scene, style, anim }),
            QueueOutputView::Morph { id, timeout_ms, scene, style, anim } => driver::events_of(
                outs,
            )[i] == (NotificationEventView::Morph { id, timeout_ms, scene, style, anim }),
            QueueOutputView::Close { id, .. } => driver::events_of(outs)[i] == (
            NotificationEventView::Close { id }),
        },
{
}

/// D-Bus hears of closes in the order in which they happen: 1 for a notification whose time ran
/// out, 3 for one that was asked to close, 4 for one that gave way. Nothing else is reported.
pub proof fn signals_follow_the_closes(outs: Seq<QueueOutputView>, o: QueueOutputView)
    ensures
        driver::signals_of(Seq::empty()).len() == 0,
        !(o is Close) ==> driver::signals_of(outs.push(o)) == driver::signals_of(outs),
        o is Close && sources::fd_id_spec(o->Close_replace_key) is None ==> driver::signals_of(
            outs.push(o),
        ) == driver::signals_of(outs),
        o is Close && sources::fd_id_spec(o->Close_replace_key) is Some ==> {
            let before = driver::signals_of(outs);
            let after = driver::signals_of(outs.push(o));
            let id = sources::fd_id_spec(o->Close_replace_key)->0;
            &&& after.len() == before.len() + 1
            &&& after.drop_last() == before
            &&& o->reason == queue::CloseReason::Timeout ==> after.last() == (
            FdSignalView::Closed { id, reason: 1 })
            &&& o->reason == queue::CloseReason::Explicit ==> after.last() == (
            FdSignalView::Closed { id, reason: 3 })
            &&& o->reason == queue::CloseReason::Replaced ==> after.last() == (
            FdSignalView::Closed { id, reason: 4 })
            &&& o->reason == queue::CloseReason::Preempted ==> after.last() == (
            FdSignalView::Closed { id, reason: 4 })
        },
{
    assert(outs.push(o).drop_last() =~= outs);
    if o is Close && sources::fd_id_spec(o->Close_replace_key) is Some {
        assert(driver::signals_of(outs.push(o)).drop_last() =~= driver::signals_of(outs));
    }
}

/// The queue runs under the policy that the configuration names.
pub proof fn the_queue_runs_as_configured(queue: crate::config::QueueConfig)
    ensures
        driver::settings_spec(queue).policy == queue.policy,
        driver::settings_spec(queue).coalesce_replace == queue.coalesce_replace,
{
}

/// The driver sleeps until the next deadline: for the time that is left, not at all once it has
/// passed, and for ever without one.
pub proof fn sleeps_end_at_the_deadline(deadline: Option<u64>, now: u64, r: Option<u64>)
    requires
        call_ensures(driver::sleep_ms, (deadline, now), r),
    ensures
        r is Some <==> deadline is Some,
        deadline is Some && now <= deadline->0 ==> now + r->0 == deadline->0,
        deadline is Some && now > deadline->0 ==> r->0 == 0,
{
}

/// What is armed is the deadline of what is on the surface, and nothing without one.
pub proof fn the_live_deadline_is_armed(q: queue::QueueManager, r: Option<u64>)
    requires
        call_ensures(queue::QueueManager::next_deadline, (&q,), r),
    ensures
        q@.live is None ==> r is None,
        q@.live is Some ==> r == q@.live->0.expires_at,
{
}

/// At startup a usable artifact is what runs, and its fallback in every other case.
pub proof fn startups_take_what_is_usable<X>(loaded: driver::Loaded<X>, fallback: X, r: X)
    requires
        call_ensures(driver::at_startup::<X>, (loaded, fallback), r),
    ensures
        loaded is Good ==> r == loaded->Good_0,
        loaded is Absent ==> r == fallback,
        loaded is Broken ==> r == fallback,
{
}

/// A driver starts with nothing shown and nothing waiting, under the configured policy, and counts
/// ids from 1.
pub proof fn drivers_start_at_rest(
    config: crate::config::Config,
    theme: crate::theme::Theme,
    types: resolver::TypeResolver,
    r: driver::Driver,
)
    requires
        call_ensures(driver::Driver::new, (config, theme, types), r),
    ensures
        r@.config == config,
        r@.theme == theme,
        r@.types == types@,
        r@.queue.live is None,
        r@.queue.waiting.len() == 0,
        r@.queue.settings.policy == config.queue.policy,
        r@.queue.settings.coalesce_replace == config.queue.coalesce_replace,
        r@.next_id == 1,
{
}

/// A broken file changes nothing but the queue's settings, which follow the configuration in force.
/// A good one replaces its artifact and a missing one is replaced by the built-in artifact. Nothing
/// that is shown or waits is touched, and no id is used up.
pub proof fn reloads_keep_the_last_good_artifact(
    before: driver::Driver,
    fresh: driver::Fresh,
    after: driver::Driver,
)
    requires
        driver::swapped(before, fresh, after),
    ensures
        after.next_id == before.next_id,
        after.queue@.live == before.queue@.live,
        after.queue@.waiting == before.queue@.waiting,
        !(fresh is Config) ==> after.config == before.config && after.queue@.settings
            == before.queue@.settings,
        !(fresh is Theme) ==> after.theme == before.theme,
        !(fresh is Types) ==> after.resolver@ == before.resolver@,
        fresh matches driver::Fresh::Config(l) ==> {
            &&& l is Good ==> after.config == l->Good_0
            &&& l is Broken ==> after.config == before.config
            &&& l is Absent ==> crate::config::is_default(after.config)
            &&& after.queue@.settings.policy == after.config.queue.policy
            &&& after.queue@.settings.coalesce_replace == after.config.queue.coalesce_replace
        },
        fresh matches driver::Fresh::Theme(l) ==> {
            &&& l is Good ==> after.theme == l->Good_0
            &&& l is Broken ==> after.theme == before.theme
            &&& l is Absent ==> crate::theme::is_default(after.theme)
        },
        fresh matches driver::Fresh::Types { loaded, fallback } ==> {
            &&& loaded is Good ==> after.resolver@ == loaded->Good_0@
            &&& loaded is Broken ==> after.resolver@ == before.resolver@
            &&& loaded is Absent ==> after.resolver@ == fallback@
        },
{
}

/// The renderer is told of every reload, and no one else.
pub proof fn reloads_are_told_to_the_renderer()
    ensures
        driver::reload_effects().events.len() == 1,
        driver::reload_effects().events[0] is ConfigReloaded,
        driver::reload_effects().signals.len() == 0,
        driver::reload_effects().reply is None,
        driver::reload_effects().reload is None,
{
}

} // verus!
