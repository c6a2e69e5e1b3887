//! Resolving, templates and the pipeline.

use dynamicnoti::binding::{Binding, Fields, Value};
use dynamicnoti::config::{Config, QueuePolicy};
use dynamicnoti::driver::{
    at_startup, emit, queue_settings, reason_code, sleep_ms, Driver, Fresh, Loaded,
};
use dynamicnoti::events::NotificationEvent;
use dynamicnoti::image::ImageData;
use dynamicnoti::names::NameMap;
use dynamicnoti::number::{Number, Readings};
use dynamicnoti::queue::{CloseReason, QueueOutput};
use dynamicnoti::resolver::TypeResolver;
use dynamicnoti::scene::{Primitive, Scene};
use dynamicnoti::sources::{FdSignal, Reloaded, SourceMsg};
use dynamicnoti::style::StyleOverrides;
use dynamicnoti::template::{
    default_anim_profile, ContainerCommon, FieldKind, FieldSpec, LayoutNode, LeafSpec,
    PrimitiveKind, TypeMeta, TypeTemplate,
};
use dynamicnoti::theme::Theme;
use dynamicnoti::{CoreError, RawNotification, SourceKind};
use indexmap::IndexMap;

fn number(v: f64) -> Number {
    Number { bits: v.to_bits(), text: v.to_string() }
}

fn nothing() -> Readings {
    NameMap::new()
}

fn leaf(primitive: PrimitiveKind, binding: Option<&str>, value: Option<&str>) -> LayoutNode {
    LayoutNode::Leaf {
        leaf: LeafSpec {
            primitive,
            binding: binding.map(Binding::parse_str),
            value: value.map(Binding::parse_str),
            style: None,
            speed_px_s: None,
            radius: None,
            fit: None,
            size: None,
        },
    }
}

fn spec(kind: FieldKind, required: bool, default: Option<Value>) -> FieldSpec {
    FieldSpec { kind, required, default, values: vec![], min: None, max: None, doc: None }
}

fn template(name: &str, specs: Vec<(&str, FieldSpec)>, layout: LayoutNode) -> TypeTemplate {
    let mut fields = IndexMap::new();
    for (k, s) in specs {
        fields.insert(k.to_string(), s);
    }
    TypeTemplate {
        meta: TypeMeta {
            name: name.to_string(),
            priority: 0,
            timeout_ms: 0,
            anim_profile: default_anim_profile(),
            replace_key: None,
        },
        fields,
        layout,
        overrides: None,
    }
}

fn generic() -> TypeTemplate {
    let mut t = template(
        "generic",
        vec![
            ("title", spec(FieldKind::String, true, None)),
            ("body", spec(FieldKind::String, false, Some(Value::Text(String::new())))),
        ],
        leaf(PrimitiveKind::Text, Some("{title}"), None),
    );
    t.meta.priority = 20;
    t
}

fn song() -> TypeTemplate {
    let mut t = template(
        "song",
        vec![
            ("title", spec(FieldKind::String, true, None)),
            ("art", spec(FieldKind::Image, false, None)),
        ],
        LayoutNode::Row {
            common: ContainerCommon::default(),
            children: vec![
                leaf(PrimitiveKind::Image, Some("art"), None),
                LayoutNode::Column {
                    common: ContainerCommon::default(),
                    children: vec![
                        leaf(PrimitiveKind::Marquee, Some("{artist} - {title}"), None),
                        leaf(PrimitiveKind::Progress, None, Some("lifetime")),
                    ],
                },
            ],
        },
    );
    t.meta.timeout_ms = 4000;
    t.meta.replace_key = Some("mpris:single".into());
    t
}

fn resolver() -> TypeResolver {
    TypeResolver::from_templates(vec![generic(), song()]).unwrap()
}

// ---- resolving ---------------------------------------------------------------------------

#[test]
fn explicit_request_wins() {
    let r = resolver();
    assert_eq!(r.resolve(Some("song"), SourceKind::Ipc).unwrap().meta.name, "song");
}

#[test]
fn source_default_used_when_unrequested() {
    let r = resolver();
    assert_eq!(r.resolve(None, SourceKind::Mpris).unwrap().meta.name, "song");
    assert_eq!(r.resolve(None, SourceKind::FreeDesktop).unwrap().meta.name, "generic");
}

#[test]
fn unknown_request_falls_back() {
    let r = resolver();
    // mpris default is song; an unknown explicit type falls to the source default.
    assert_eq!(r.resolve(Some("nope"), SourceKind::Mpris).unwrap().meta.name, "song");
    // ipc default is generic.
    assert_eq!(r.resolve(Some("nope"), SourceKind::Ipc).unwrap().meta.name, "generic");
}

#[test]
fn missing_generic_is_rejected() {
    let r = TypeResolver::from_templates(vec![song()]);
    assert!(r.is_err());
}

#[test]
fn generic_is_the_last_resort() {
    let r = TypeResolver::from_templates(vec![generic()]).unwrap();
    assert_eq!(r.resolve(Some("nope"), SourceKind::Mpris).unwrap().meta.name, "generic");
    match TypeResolver::from_templates(vec![]) {
        Err(e) => assert_eq!(e, CoreError::UnknownType("generic".into())),
        Ok(_) => panic!("accepted without a generic type"),
    }
}

#[test]
fn later_templates_replace_earlier_ones() {
    let mut again = generic();
    again.meta.priority = 7;
    let r = TypeResolver::from_templates(vec![generic(), song(), again]).unwrap();
    assert_eq!(r.get("generic").unwrap().meta.priority, 7);
    assert!(r.get("deal").is_none());
    let mut names = r.names();
    names.sort();
    assert_eq!(names, vec!["generic".to_string(), "song".to_string()]);
}

#[test]
fn the_schema_of_a_type_is_counted_and_ordered() {
    let metas = song().field_metas(&nothing());
    assert_eq!(metas.len(), 2);
    assert_eq!(metas[0].name, "title");
    assert_eq!(metas[1].name, "art");
}

// ---- the pipeline ------------------------------------------------------------------------

fn driver() -> Driver {
    Driver::new(Config::default(), Theme::default(), resolver())
}

fn raw(kind: Option<&str>, fields: &[(&str, Value)], replace_key: Option<&str>) -> RawNotification {
    let mut f: Fields = NameMap::new();
    for (k, v) in fields {
        f.insert(k.to_string(), v.clone());
    }
    RawNotification {
        source: SourceKind::Ipc,
        app_name: "test".into(),
        requested_type: kind.map(str::to_string),
        replace_key: replace_key.map(str::to_string),
        fields: f,
    }
}

fn post(kind: &str, fields: &[(&str, Value)], replace_key: Option<&str>) -> SourceMsg {
    SourceMsg::Post { raw: raw(Some(kind), fields, replace_key) }
}

fn title(s: &str) -> Vec<(&'static str, Value)> {
    vec![("title", Value::Text(s.into()))]
}

#[test]
fn generic_post_emits_show() {
    let mut d = driver();
    let evs = d.handle(post("generic", &title("hi"), None), 0, &nothing()).events;
    assert!(matches!(evs.as_slice(), [NotificationEvent::Show { id: 1, .. }]), "{evs:?}");
}

#[test]
fn same_replace_key_morphs() {
    let mut d = driver();
    let mut evs = d.handle(post("song", &title("a"), Some("k")), 0, &nothing()).events;
    evs.extend(d.handle(post("song", &title("b"), Some("k")), 0, &nothing()).events);
    assert!(
        matches!(
            evs.as_slice(),
            [NotificationEvent::Show { id: 1, .. }, NotificationEvent::Morph { id: 1, .. }]
        ),
        "{evs:?}"
    );
}

#[test]
fn explicit_close_emits_close() {
    let mut d = driver();
    let mut evs = d.handle(post("song", &title("a"), Some("k")), 0, &nothing()).events;
    evs.extend(d.handle(SourceMsg::Close { replace_key: "k".into() }, 0, &nothing()).events);
    assert!(
        matches!(
            evs.as_slice(),
            [NotificationEvent::Show { id: 1, .. }, NotificationEvent::Close { id: 1 }]
        ),
        "{evs:?}"
    );
}

#[test]
fn suppressed_freedesktop_app_emits_nothing() {
    let mut config = Config::default();
    config.sources.mpris.suppress_freedesktop_from = vec!["Cider".into()];
    let mut d = Driver::new(config, Theme::default(), resolver());
    let mut r = raw(None, &title("hi"), Some("freedesktop:7"));
    r.source = SourceKind::FreeDesktop;
    r.app_name = "cider".into(); // case-insensitive match
    let fx = d.handle(SourceMsg::Post { raw: r }, 0, &nothing());
    assert!(fx.events.is_empty(), "suppressed app must not produce any render event");
    assert_eq!(fx.reply, Some(Ok(0)));
    assert_eq!(d.next_id, 1);
}

#[test]
fn missing_required_field_is_rejected_via_reply() {
    let mut d = driver();
    let mut r = raw(Some("generic"), &[], None); // missing required `title`
    r.app_name = "t".into();
    let fx = d.handle(SourceMsg::Post { raw: r }, 0, &nothing());
    // The reply must be an Err, and nothing should have been shown.
    assert!(matches!(fx.reply, Some(Err(_))));
    assert!(fx.events.is_empty());
    assert_eq!(
        fx.reply,
        Some(Err("field 'title' is required by type 'generic'".to_string()))
    );
}

#[test]
fn ids_count_up_from_one() {
    let mut d = driver();
    for n in 1..=3u64 {
        let fx = d.handle(post("generic", &title("x"), None), 0, &nothing());
        assert_eq!(fx.reply, Some(Ok(n)));
        assert!(d.handle(post("generic", &[], None), 0, &nothing()).reply.unwrap().is_err());
    }
}

#[test]
fn ipc_apps_are_never_suppressed() {
    let mut config = Config::default();
    config.sources.mpris.suppress_freedesktop_from = vec!["test".into()];
    let mut d = Driver::new(config, Theme::default(), resolver());
    assert_eq!(d.handle(post("generic", &title("x"), None), 0, &nothing()).events.len(), 1);
}

#[test]
fn overrides_set_priority_and_timeout() {
    let mut loud = generic();
    loud.meta.name = "loud".into();
    loud.overrides = Some(StyleOverrides {
        priority: Some(99),
        timeout_ms: Some(1234),
        height: Some(80),
        ..Default::default()
    });
    let r = TypeResolver::from_templates(vec![generic(), loud]).unwrap();
    let mut d = Driver::new(Config::default(), Theme::default(), r);
    d.handle(post("generic", &title("a"), None), 0, &nothing());
    let evs = d.handle(post("loud", &title("b"), None), 10, &nothing()).events;
    match evs.as_slice() {
        [NotificationEvent::Close { id: 1 }, NotificationEvent::Show { id: 2, timeout_ms: 1234, style, .. }] => {
            assert_eq!(style.height, 80)
        }
        other => panic!("{other:?}"),
    }
    assert_eq!(d.queue.next_deadline(), Some(1244));
    assert!(d.tick(1243).events.is_empty());
    assert_eq!(d.tick(1244).events.len(), 2);
}

#[test]
fn closed_dbus_notifications_are_reported() {
    let mut d = driver();
    let mut r = raw(None, &title("x"), Some("freedesktop:7"));
    r.source = SourceKind::FreeDesktop;
    d.handle(SourceMsg::Post { raw: r }, 0, &nothing());
    let fx = d.handle(SourceMsg::Close { replace_key: "freedesktop:7".into() }, 0, &nothing());
    assert!(matches!(fx.signals.as_slice(), [FdSignal::Closed { id: 7, reason: 3 }]));
}

#[test]
fn outputs_become_events_and_signals() {
    let close = |key: Option<&str>, reason| QueueOutput::Close {
        id: 4,
        reason,
        replace_key: key.map(str::to_string),
    };
    let fx = emit(vec![
        close(Some("freedesktop:12"), CloseReason::Timeout),
        close(Some("freedesktop:x"), CloseReason::Timeout),
        close(None, CloseReason::Explicit),
        close(Some("freedesktop:3"), CloseReason::Preempted),
    ]);
    assert_eq!(fx.events.len(), 4);
    assert!(matches!(
        fx.signals.as_slice(),
        [FdSignal::Closed { id: 12, reason: 1 }, FdSignal::Closed { id: 3, reason: 4 }]
    ));
    assert_eq!(fx.reply, None);
    assert_eq!(reason_code(CloseReason::Replaced), 4);
}

#[test]
fn images_go_straight_to_the_renderer() {
    let mut d = driver();
    let image = ImageData::from_rgba(1, 1, vec![1, 2, 3, 4]).unwrap();
    let fx = d.handle(SourceMsg::ImageReady { key: "u".into(), image }, 0, &nothing());
    assert!(matches!(fx.events.as_slice(), [NotificationEvent::ImageReady { key, .. }] if key == "u"));
}

#[test]
fn changed_files_are_loaded_afresh() {
    let mut d = driver();
    let fx = d.handle(SourceMsg::ConfigChanged(Reloaded::Theme), 0, &nothing());
    assert_eq!(fx.reload, Some(Reloaded::Theme));
    assert!(fx.events.is_empty());

    let mut config = Config::default();
    config.monitor = "DP-1".into();
    config.queue.policy = QueuePolicy::Fifo;
    let fx = d.reload(Fresh::Config(Loaded::Good(config)));
    assert!(matches!(fx.events.as_slice(), [NotificationEvent::ConfigReloaded]));
    assert_eq!(d.config.monitor, "DP-1");
    // A broken edit keeps the last good configuration; a removed file means the defaults.
    d.reload(Fresh::Config(Loaded::Broken));
    assert_eq!(d.config.monitor, "DP-1");
    d.reload(Fresh::Config(Loaded::Absent));
    assert_eq!(d.config.monitor, "all");
    assert_eq!(queue_settings(&d.config).policy, QueuePolicy::PriorityPreempt);
}

#[test]
fn types_are_loaded_afresh() {
    let mut d = driver();
    let only = || TypeResolver::from_templates(vec![generic()]).unwrap();
    d.reload(Fresh::Types { loaded: Loaded::Broken, fallback: only() });
    assert!(d.resolver.get("song").is_some());
    d.reload(Fresh::Types { loaded: Loaded::Good(only()), fallback: resolver() });
    assert!(d.resolver.get("song").is_none());
    d.reload(Fresh::Types { loaded: Loaded::Absent, fallback: resolver() });
    assert!(d.resolver.get("song").is_some());
}

#[test]
fn startup_takes_what_is_usable() {
    assert_eq!(at_startup(Loaded::Good(1), 2), 1);
    assert_eq!(at_startup(Loaded::Absent, 2), 2);
    assert_eq!(at_startup(Loaded::Broken, 2), 2);
}

#[test]
fn sleeping_until_a_deadline() {
    assert_eq!(sleep_ms(None, 5), None);
    assert_eq!(sleep_ms(Some(9), 5), Some(4));
    assert_eq!(sleep_ms(Some(4), 5), Some(0));
}

#[test]
fn two_rounds_of_readings_settle_a_post() {
    let gauge = template(
        "generic",
        vec![("amount", spec(FieldKind::Float, false, None))],
        leaf(PrimitiveKind::Progress, None, Some("{amount}")),
    );
    let r = TypeResolver::from_templates(vec![gauge]).unwrap();
    let mut d = Driver::new(Config::default(), Theme::default(), r);
    let note = raw(None, &[("amount", Value::Text("0.250".into()))], None);
    let mut table = nothing();
    for _ in 0..2 {
        for t in d.post_texts(&note, &table) {
            if let Ok(v) = t.parse::<f64>() {
                table.insert(t, number(v));
            }
        }
    }
    let evs = d.post(note, 0, &table).events;
    match evs.as_slice() {
        [NotificationEvent::Show { scene: Scene::Leaf(Primitive::Progress { value, .. }), .. }] => {
            assert_eq!(*value, number(0.25))
        }
        other => panic!("{other:?}"),
    }
}
