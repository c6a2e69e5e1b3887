//! The pipeline: raw notification to template, to bound fields, to scene, through the queue, to
//! what is sent to the renderer and to D-Bus.
//!
//! The driver owns the configuration and the queue. It has no clock, no channel and no file: the
//! caller passes the time in and performs the [`Effects`] that each step returns.

use vstd::prelude::*;

use crate::bind;
use crate::config::{Config, QueueConfig};
use crate::events;
use crate::events::{NotificationEvent, NotificationEventView};
use crate::number::Readings;
use crate::queue;
use crate::queue::{
    CloseReason, EntryView, QueueInput, QueueInputView, QueueManager, QueueOutput, QueueOutputView,
    QueueSettings, QueueView,
};
use crate::resolver;
use crate::resolver::TypeResolver;
use crate::scene;
use crate::sources;
use crate::sources::{FdSignal, FdSignalView, Reloaded, SourceMsg};
use crate::style;
use crate::template::TypeTemplate;
use crate::text;
use crate::theme::Theme;
use crate::{CoreErrorView, RawNotification, RawView, SourceKind};

verus! {

/// Where the daemon's files are.
#[derive(Debug, PartialEq, Eq)]
pub struct Paths {
    pub config_dir: String,
    pub socket: String,
}

/// The reason code of a `NotificationClosed` signal: 1 expired, 3 closed by request, 4 anything
/// else.
pub open spec fn reason_code_spec(reason: CloseReason) -> u32 {
    match reason {
        CloseReason::Timeout => 1,
        CloseReason::Explicit => 3,
        CloseReason::Replaced => 4,
        CloseReason::Preempted => 4,
    }
}

/// Maps a close reason onto the reason code of a `NotificationClosed` signal.
pub fn reason_code(reason: CloseReason) -> (r: u32)
    ensures
        r == reason_code_spec(reason),
{
    match reason {
        CloseReason::Timeout => 1,
        CloseReason::Explicit => 3,
        CloseReason::Replaced => 4,
        CloseReason::Preempted => 4,
    }
}

/// The queue policy that a configuration asks for.
pub open spec fn settings_spec(queue: QueueConfig) -> QueueSettings {
    QueueSettings { policy: queue.policy, coalesce_replace: queue.coalesce_replace }
}

/// The queue policy that a configuration asks for.
pub fn queue_settings(config: &Config) -> (r: QueueSettings)
    ensures
        r == settings_spec(config.queue),
{
    QueueSettings { policy: config.queue.policy, coalesce_replace: config.queue.coalesce_replace }
}

/// How long to sleep at `now` until `deadline`: not at all once it has passed, and for ever when
/// there is no timer to arm.
pub fn sleep_ms(deadline: Option<u64>, now: u64) -> (r: Option<u64>)
    ensures
        r == (match deadline {
            Some(d) => if d > now {
                Some((d - now) as u64)
            } else {
                Some(0u64)
            },
            None => None,
        }),
{
    match deadline {
        Some(d) => if d > now {
            Some(d - now)
        } else {
            Some(0)
        },
        None => None,
    }
}

/// What the caller has to do after a step.
#[derive(Debug)]
pub struct Effects {
    /// What to answer to whoever posted: the assigned id, or why the post was rejected.
    pub reply: Option<Result<u64, String>>,
    /// What to send to the renderer, in order.
    pub events: Vec<NotificationEvent>,
    /// What to send to the freedesktop server, in order.
    pub signals: Vec<FdSignal>,
    /// What to load afresh and hand to [`Driver::reload`].
    pub reload: Option<Reloaded>,
}

/// The view of [`Effects`].
pub struct EffectsView {
    pub reply: Option<Result<u64, Seq<char>>>,
    pub events: Seq<NotificationEventView>,
    pub signals: Seq<FdSignalView>,
    pub reload: Option<Reloaded>,
}

impl View for Effects {
    type V = EffectsView;

    open spec fn view(&self) -> EffectsView {
        EffectsView {
            reply: match self.reply {
                Some(Ok(id)) => Some(Ok(id)),
                Some(Err(m)) => Some(Err(m@)),
                None => None,
            },
            events: events::event_views(self.events@),
            signals: sources::signal_views(self.signals@),
            reload: self.reload,
        }
    }
}

/// The pipeline's state.
pub struct Driver {
    pub config: Config,
    pub theme: Theme,
    pub resolver: TypeResolver,
    pub queue: QueueManager,
    /// The id of the next accepted notification.
    pub next_id: u64,
}

/// The view of a [`Driver`].
pub struct DriverView {
    pub config: Config,
    pub theme: Theme,
    pub types: Map<Seq<char>, TypeTemplate>,
    pub queue: QueueView,
    pub next_id: u64,
}

impl View for Driver {
    type V = DriverView;

    open spec fn view(&self) -> DriverView {
        DriverView {
            config: self.config,
            theme: self.theme,
            types: self.resolver@,
            queue: self.queue@,
            next_id: self.next_id,
        }
    }
}

// ---- what each message does --------------------------------------------------------------

/// The D-Bus signals that the outputs of the queue call for: one for each closed notification that
/// came in over D-Bus.
pub open spec fn signals_of(outs: Seq<QueueOutputView>) -> Seq<FdSignalView>
    decreases outs.len(),
{
    if outs.len() == 0 {
        Seq::empty()
    } else {
        let rest = signals_of(outs.drop_last());
        match outs.last() {
            QueueOutputView::Close { reason, replace_key, .. } => match sources::fd_id_spec(
                replace_key,
            ) {
                Some(id) => rest.push(FdSignalView::Closed { id, reason: reason_code_spec(reason) }),
                None => rest,
            },
            _ => rest,
        }
    }
}

/// The surface commands that the outputs of the queue stand for.
pub open spec fn events_of(outs: Seq<QueueOutputView>) -> Seq<NotificationEventView> {
    outs.map_values(|o: QueueOutputView| events::event_of(o))
}

/// The effects of the queue's outputs alone.
pub open spec fn output_effects(outs: Seq<QueueOutputView>) -> EffectsView {
    EffectsView { reply: None, events: events_of(outs), signals: signals_of(outs), reload: None }
}

/// What one input of the queue does to the driver.
pub open spec fn queue_step(d: DriverView, input: QueueInputView, now: u64) -> (
    DriverView,
    EffectsView,
) {
    let next = queue::step(d.queue, input, now);
    (DriverView { queue: next.0, ..d }, output_effects(next.1))
}

/// Whether a notification is a player's own toast that the song card already covers.
pub open spec fn suppressed(d: DriverView, raw: RawView) -> bool {
    &&& raw.source == SourceKind::FreeDesktop
    &&& text::any_ignoring_case(
        d.config.sources.mpris.suppress_freedesktop_from@,
        raw.app_name,
    )
}

/// The template that a notification resolves to.
pub open spec fn template_of(d: DriverView, raw: RawView) -> TypeTemplate {
    resolver::resolve_spec(d.types, raw.requested_type, raw.source)
}

/// Whether nothing that its type requires is missing from a notification.
pub open spec fn acceptable(d: DriverView, raw: RawView, table: Readings) -> bool {
    bind::complete(template_of(d, raw).schema(), raw.fields, table)
}

/// The queue entry of an accepted notification.
pub open spec fn entry_of(d: DriverView, raw: RawView, table: Readings) -> EntryView {
    let t = template_of(d, raw);
    EntryView {
        id: d.next_id,
        replace_key: if raw.replace_key is Some {
            raw.replace_key
        } else {
            text::opt_text(t.meta.replace_key)
        },
        priority: match t.overrides {
            Some(o) => style::pick(o.priority, t.meta.priority),
            None => t.meta.priority,
        },
        timeout_ms: match t.overrides {
            Some(o) => style::pick(o.timeout_ms, t.meta.timeout_ms),
            None => t.meta.timeout_ms,
        },
        scene: scene::build_spec(
            t.layout,
            bind::bound_fields(t.schema(), raw.fields, table),
            table,
        ),
        style: style::style_spec(d.theme, t.overrides),
        anim: style::anim_spec(d.theme, t.meta.anim_profile@, t.overrides),
        expires_at: None,
    }
}

/// Why a notification is rejected: the first required field that is missing.
pub open spec fn rejection(d: DriverView, raw: RawView, table: Readings) -> Seq<char> {
    let t = template_of(d, raw);
    let field = choose|name: Seq<char>| bind::first_missing(t.schema(), raw.fields, table, name);
    crate::message_spec(CoreErrorView::MissingField { ty: t.meta.name@, field })
}

/// What posting a notification does.
pub open spec fn post_spec(d: DriverView, raw: RawView, now: u64, table: Readings) -> (
    DriverView,
    EffectsView,
) {
    if suppressed(d, raw) {
        (d, EffectsView { reply: Some(Ok(0)), ..output_effects(Seq::empty()) })
    } else if !acceptable(d, raw, table) {
        (
            d,
            EffectsView {
                reply: Some(Err(rejection(d, raw, table))),
                ..output_effects(Seq::empty())
            },
        )
    } else {
        let next = queue::step(d.queue, QueueInputView::Post(entry_of(d, raw, table)), now);
        (
            DriverView { queue: next.0, next_id: (d.next_id + 1) as u64, ..d },
            EffectsView { reply: Some(Ok(d.next_id)), ..output_effects(next.1) },
        )
    }
}

/// What a message from a source does.
pub open spec fn handle_spec(d: DriverView, msg: SourceMsg, now: u64, table: Readings) -> (
    DriverView,
    EffectsView,
) {
    match msg {
        SourceMsg::Post { raw } => post_spec(d, raw@, now, table),
        SourceMsg::Close { replace_key } => queue_step(
            d,
            QueueInputView::Close { replace_key: replace_key@ },
            now,
        ),
        SourceMsg::ImageReady { key, image } => (
            d,
            EffectsView {
                events: seq![NotificationEventView::ImageReady { key: key@, image }],
                ..output_effects(Seq::empty())
            },
        ),
        SourceMsg::ConfigChanged(which) => (
            d,
            EffectsView { reload: Some(which), ..output_effects(Seq::empty()) },
        ),
    }
}

/// What loading an artifact from disk gave.
#[derive(Debug)]
pub enum Loaded<X> {
    /// There is no such file.
    Absent,
    /// The file is there and cannot be used.
    Broken,
    /// The artifact.
    Good(X),
}

/// An artifact that was loaded afresh.
#[derive(Debug)]
pub enum Fresh {
    Config(Loaded<Config>),
    Theme(Loaded<Theme>),
    /// The types, and those to fall back on without a types directory.
    Types { loaded: Loaded<TypeResolver>, fallback: TypeResolver },
}

/// What to run with at startup: the loaded artifact, or `fallback` without a usable one.
pub fn at_startup<X>(loaded: Loaded<X>, fallback: X) -> (r: X)
    ensures
        r == (match loaded {
            Loaded::Good(x) => x,
            _ => fallback,
        }),
{
    match loaded {
        Loaded::Good(x) => x,
        _ => fallback,
    }
}

/// What the caller has to do after a reload.
pub open spec fn reload_effects() -> EffectsView {
    EffectsView {
        events: seq![NotificationEventView::ConfigReloaded],
        ..output_effects(Seq::empty())
    }
}

/// Whether swapping in `fresh` leads from one driver to the other.
pub open spec fn swapped(before: Driver, fresh: Fresh, after: Driver) -> bool {
    &&& after.next_id == before.next_id
    &&& match fresh {
        Fresh::Config(Loaded::Good(c)) => after.config == c,
        Fresh::Config(Loaded::Absent) => crate::config::is_default(after.config),
        _ => after.config == before.config,
    }
    &&& match fresh {
        Fresh::Theme(Loaded::Good(t)) => after.theme == t,
        Fresh::Theme(Loaded::Absent) => crate::theme::is_default(after.theme),
        _ => after.theme == before.theme,
    }
    &&& match fresh {
        Fresh::Types { loaded: Loaded::Good(t), .. } => after.resolver@ == t@,
        Fresh::Types { loaded: Loaded::Absent, fallback } => after.resolver@ == fallback@,
        _ => after.resolver@ == before.resolver@,
    }
    &&& after.queue@ == (QueueView {
        settings: if fresh is Config {
            settings_spec(after.config.queue)
        } else {
            before.queue@.settings
        },
        ..before.queue@
    })
}

// ---- the driver --------------------------------------------------------------------------

fn no_effects() -> (r: Effects)
    ensures
        r@ == output_effects(Seq::empty()),
{
    let r = Effects { reply: None, events: Vec::new(), signals: Vec::new(), reload: None };
    proof {
        assert(r@.events =~= events_of(Seq::empty()));
        assert(r@.signals =~= signals_of(Seq::empty()));
    }
    r
}

fn one_event(e: NotificationEvent) -> (r: Effects)
    ensures
        r@ == (EffectsView { events: seq![e@], ..output_effects(Seq::empty()) }),
{
    let mut events: Vec<NotificationEvent> = Vec::new();
    events.push(e);
    let r = Effects { reply: None, events, signals: Vec::new(), reload: None };
    proof {
        assert(r@.events =~= seq![e@]);
        assert(r@.signals =~= signals_of(Seq::empty()));
    }
    r
}

fn emit_one(o: QueueOutput, events: &mut Vec<NotificationEvent>, signals: &mut Vec<FdSignal>)
    ensures
        events::event_views(final(events)@) == events::event_views(old(events)@).push(
            events::event_of(o@),
        ),
        sources::signal_views(final(signals)@) == (match o@ {
            QueueOutputView::Close { reason, replace_key, .. } => match sources::fd_id_spec(
                replace_key,
            ) {
                Some(id) => sources::signal_views(old(signals)@).push(
                    FdSignalView::Closed { id, reason: reason_code_spec(reason) },
                ),
                None => sources::signal_views(old(signals)@),
            },
            _ => sources::signal_views(old(signals)@),
        }),
{
    let ghost view = o@;
    let event = match o {
        QueueOutput::Show { id, timeout_ms, scene, style, anim } => NotificationEvent::Show {
            id,
            timeout_ms,
            scene,
            style,
            anim,
        },
        QueueOutput::Morph { id, timeout_ms, scene, style, anim } => NotificationEvent::Morph {
            id,
            timeout_ms,
            scene,
            style,
            anim,
        },
        QueueOutput::Close { id, reason, replace_key } => {
            // A closed notification that came in over D-Bus is reported back there.
            if let Some(fd) = sources::fd_id(&replace_key) {
                signals.push(FdSignal::Closed { id: fd, reason: reason_code(reason) });
                assert(sources::signal_views(signals@) =~= sources::signal_views(
                    old(signals)@,
                ).push(FdSignalView::Closed { id: fd, reason: reason_code_spec(reason) }));
            }
            NotificationEvent::Close { id }
        },
    };
    assert(event@ == events::event_of(view));
    events.push(event);
    assert(events::event_views(events@) =~= events::event_views(old(events)@).push(
        events::event_of(view),
    ));
}

/// Maps the outputs of the queue onto what is sent to the renderer and to D-Bus.
pub fn emit(outs: Vec<QueueOutput>) -> (r: Effects)
    ensures
        r@ == output_effects(queue::output_views(outs@)),
{
    let ghost all = queue::output_views(outs@);
    let mut rest = outs;
    let mut events: Vec<NotificationEvent> = Vec::new();
    let mut signals: Vec<FdSignal> = Vec::new();
    let ghost mut done: int = 0;
    proof {
        assert(all.take(0) =~= Seq::empty());
        assert(all.skip(0) =~= all);
        assert(events::event_views(events@) =~= events_of(all.take(0)));
        assert(sources::signal_views(signals@) =~= signals_of(all.take(0)));
    }
    while rest.len() > 0
        invariant
            0 <= done <= all.len(),
            queue::output_views(rest@) == all.skip(done),
            events::event_views(events@) == events_of(all.take(done)),
            sources::signal_views(signals@) == signals_of(all.take(done)),
        decreases rest@.len(),
    {
        let ghost left = queue::output_views(rest@);
        assert(left.len() == rest@.len() && left.len() == all.len() - done);
        let o = rest.remove(0);
        let ghost v = o@;
        emit_one(o, &mut events, &mut signals);
        proof {
            assert(v == left[0]);
            assert(queue::output_views(rest@) =~= left.skip(1));
            assert(left.skip(1) =~= all.skip(done + 1));
            let now = all.take(done + 1);
            assert(now.drop_last() =~= all.take(done));
            assert(now.last() == v);
            assert(events_of(now) =~= events_of(all.take(done)).push(events::event_of(v)));
            done = done + 1;
        }
    }
    assert(all.take(done) =~= all);
    Effects { reply: None, events, signals, reload: None }
}

impl Driver {
    /// A driver at rest.
    pub fn new(config: Config, theme: Theme, resolver: TypeResolver) -> (r: Driver)
        ensures
            r@ == (DriverView {
                config,
                theme,
                types: resolver@,
                queue: QueueView {
                    settings: settings_spec(config.queue),
                    live: None,
                    waiting: Seq::empty(),
                },
                next_id: 1,
            }),
    {
        let queue = QueueManager::new(queue_settings(&config));
        Driver { config, theme, resolver, queue, next_id: 1 }
    }

    /// Handles one message from a source.
    pub fn handle(&mut self, msg: SourceMsg, now: u64, table: &Readings) -> (r: Effects)
        requires
            now + u32::MAX <= u64::MAX,
            msg is Post ==> old(self).next_id < u64::MAX,
        ensures
            (final(self)@, r@) == handle_spec(old(self)@, msg, now, *table),
    {
        match msg {
            SourceMsg::Post { raw } => self.post(raw, now, table),
            SourceMsg::Close { replace_key } => {
                let outs = self.queue.handle(QueueInput::Close { replace_key }, now);
                emit(outs)
            },
            SourceMsg::ImageReady { key, image } => {
                one_event(NotificationEvent::ImageReady { key, image })
            },
            SourceMsg::ConfigChanged(which) => {
                let mut r = no_effects();
                r.reload = Some(which);
                r
            },
        }
    }

    fn is_suppressed(&self, raw: &RawNotification) -> (r: bool)
        ensures
            r == suppressed(self@, raw@),
    {
        raw.source == SourceKind::FreeDesktop && text::contains_ignoring_case(
            &self.config.sources.mpris.suppress_freedesktop_from,
            raw.app_name.as_str(),
        )
    }

    /// Takes a raw notification through the pipeline. A player's own toast that the song card
    /// covers is answered with id 0 and shown nowhere; one that lacks a required field is
    /// rejected.
    pub fn post(&mut self, raw: RawNotification, now: u64, table: &Readings) -> (r: Effects)
        requires
            now + u32::MAX <= u64::MAX,
            old(self).next_id < u64::MAX,
        ensures
            (final(self)@, r@) == post_spec(old(self)@, raw@, now, *table),
    {
        let ghost d = self@;
        let ghost given = raw@;
        if self.is_suppressed(&raw) {
            let mut r = no_effects();
            r.reply = Some(Ok(0));
            return r;
        }
        let requested: Option<&str> = match &raw.requested_type {
            Some(n) => Some(n.as_str()),
            None => None,
        };
        let template = match self.resolver.resolve(requested, raw.source) {
            Ok(t) => t,
            Err(e) => {
                let mut r = no_effects();
                r.reply = Some(Err(e.message()));
                return r;
            },
        };
        assert(*template == template_of(d, given));
        let bound = match bind::bind(template, raw, table) {
            Ok(b) => b,
            Err(e) => {
                proof {
                    bind::binding_fails_on_one_field(
                        template_of(d, given).schema(),
                        given.fields,
                        *table,
                    );
                }
                let mut r = no_effects();
                r.reply = Some(Err(e.message()));
                return r;
            },
        };
        let ov: Option<&style::StyleOverrides> = match &bound.template.overrides {
            Some(o) => Some(o),
            None => None,
        };
        let mut priority: i32 = bound.behavior.priority;
        let mut timeout_ms: u32 = bound.behavior.timeout_ms;
        if let Some(o) = ov {
            if let Some(p) = o.priority {
                priority = p;
            }
            if let Some(t) = o.timeout_ms {
                timeout_ms = t;
            }
        }
        let look = self.theme.resolve_style(ov);
        let anim = self.theme.resolve_anim(bound.template.meta.anim_profile.as_str(), ov);
        let built = scene::build(&bound, &look, table);
        let id: u64 = self.next_id;
        self.next_id = id + 1;
        let input = QueueInput::Post {
            id,
            replace_key: bound.replace_key.clone(),
            priority,
            timeout_ms,
            scene: built,
            style: look,
            anim,
        };
        proof {
            bind::binding_fails_on_one_field(
                template_of(d, given).schema(),
                given.fields,
                *table,
            );
            assert(input@ == QueueInputView::Post(entry_of(d, given, *table)));
        }
        let outs = self.queue.handle(input, now);
        let mut r = emit(outs);
        r.reply = Some(Ok(id));
        r
    }

    /// Handles a timer wakeup.
    pub fn tick(&mut self, now: u64) -> (r: Effects)
        requires
            now + u32::MAX <= u64::MAX,
        ensures
            (final(self)@, r@) == queue_step(old(self)@, QueueInputView::Tick, now),
    {
        let outs = self.queue.handle(QueueInput::Tick, now);
        emit(outs)
    }

    /// Swaps in an artifact that was loaded afresh. A file that is gone gives way to the defaults; a
    /// file that cannot be used leaves the last good one in force. A new configuration sets the
    /// queue's policy for the next input. The renderer is told in every case.
    pub fn reload(&mut self, fresh: Fresh) -> (r: Effects)
        ensures
            r@ == (EffectsView {
                events: seq![NotificationEventView::ConfigReloaded],
                ..output_effects(Seq::empty())
            }),
            final(self).next_id == old(self).next_id,
            swapped(*old(self), fresh, *final(self)),
            r@ == reload_effects(),
            match fresh {
                Fresh::Config(l) => {
                    &&& match l {
                        Loaded::Good(c) => final(self).config == c,
                        Loaded::Broken => final(self).config == old(self).config,
                        Loaded::Absent => crate::config::is_default(final(self).config),
                    }
                    &&& final(self).theme == old(self).theme
                    &&& final(self).resolver@ == old(self).resolver@
                    &&& final(self).queue@ == (QueueView {
                        settings: settings_spec(final(self).config.queue),
                        ..old(self).queue@
                    })
                },
                Fresh::Theme(l) => {
                    &&& match l {
                        Loaded::Good(t) => final(self).theme == t,
                        Loaded::Broken => final(self).theme == old(self).theme,
                        Loaded::Absent => crate::theme::is_default(final(self).theme),
                    }
                    &&& final(self).config == old(self).config
                    &&& final(self).resolver@ == old(self).resolver@
                    &&& final(self).queue@ == old(self).queue@
                },
                Fresh::Types { loaded, fallback } => {
                    &&& match loaded {
                        Loaded::Good(t) => final(self).resolver@ == t@,
                        Loaded::Broken => final(self).resolver@ == old(self).resolver@,
                        Loaded::Absent => final(self).resolver@ == fallback@,
                    }
                    &&& final(self).config == old(self).config
                    &&& final(self).theme == old(self).theme
                    &&& final(self).queue@ == old(self).queue@
                },
            },
    {
        match fresh {
            Fresh::Config(l) => {
                match l {
                    Loaded::Good(c) => {
                        self.config = c;
                    },
                    Loaded::Broken => {},
                    Loaded::Absent => {
                        self.config = Config::default();
                    },
                }
                self.queue.set_settings(queue_settings(&self.config));
            },
            Fresh::Theme(l) => match l {
                Loaded::Good(t) => {
                    self.theme = t;
                },
                Loaded::Broken => {},
                Loaded::Absent => {
                    self.theme = Theme::default();
                },
            },
            Fresh::Types { loaded, fallback } => match loaded {
                Loaded::Good(t) => {
                    self.resolver = t;
                },
                Loaded::Broken => {},
                Loaded::Absent => {
                    self.resolver = fallback;
                },
            },
        }
        one_event(NotificationEvent::ConfigReloaded)
    }

    /// The texts whose readings [`Driver::post`] looks up, as far as `table` tells: what a field
    /// holds decides what a layout reads. Those that binding looks up do not depend on the table,
    /// so once these have been read, asking again names all of them.
    pub fn post_texts(&self, raw: &RawNotification, table: &Readings) -> (r: Vec<String>)
        ensures
            forall|t: Seq<char>| #[trigger]
                text::texts(r@).contains(t) <==> post_reads(self@, raw@, *table, t),
    {
        let requested: Option<&str> = match &raw.requested_type {
            Some(n) => Some(n.as_str()),
            None => None,
        };
        match self.resolver.resolve(requested, raw.source) {
            Ok(t) => {
                let mut out = bind::bind_texts(&t, &raw.fields);
                let ghost first = text::texts(out@);
                match bind::bind_fields(&t, &raw.fields, table) {
                    Ok(fields) => {
                        let mut more = scene::build_texts(&t.layout, &fields);
                        let ghost second = text::texts(more@);
                        out.append(&mut more);
                        proof {
                            assert(text::texts(out@) =~= first + second);
                            assert forall|x: Seq<char>| #[trigger]
                                text::texts(out@).contains(x) <==> post_reads(
                                    self@,
                                    raw@,
                                    *table,
                                    x,
                                ) by {
                                lemma_joined(first, second, x);
                            }
                        }
                    },
                    Err(name) => {
                        proof {
                            bind::binding_fails_on_one_field(
                                template_of(self@, raw@).schema(),
                                raw@.fields,
                                *table,
                            );
                        }
                    },
                }
                out
            },
            Err(_) => Vec::new(),
        }
    }
}

proof fn lemma_joined(a: Seq<Seq<char>>, b: Seq<Seq<char>>, x: Seq<char>)
    ensures
        (a + b).contains(x) <==> a.contains(x) || b.contains(x),
{
    let c = a + b;
    if a.contains(x) {
        let i = choose|i: int| 0 <= i < a.len() && a[i] == x;
        assert(c[i] == x);
    }
    if b.contains(x) {
        let i = choose|i: int| 0 <= i < b.len() && b[i] == x;
        assert(c[a.len() + i] == x);
    }
    if c.contains(x) {
        let i = choose|i: int| 0 <= i < c.len() && c[i] == x;
        if i < a.len() {
            assert(a[i] == x);
        } else {
            assert(b[i - a.len()] == x);
        }
    }
}

/// Whether posting a notification looks up what the text `t` reads as.
pub open spec fn post_reads(d: DriverView, raw: RawView, table: Readings, t: Seq<char>) -> bool {
    let tpl = template_of(d, raw);
    ||| bind::bind_reads(tpl.schema(), raw.fields, t)
    ||| acceptable(d, raw, table) && scene::build_reads(
        tpl.layout,
        bind::bound_fields(tpl.schema(), raw.fields, table),
        t,
    )
}

} // verus!
