//! Bindings, scenes and building.

use dynamicnoti::bind::{bind, bind_texts, coerce};
use dynamicnoti::binding::{interpolate, is_identifier, Binding, Fields, Scalar, Value};
use dynamicnoti::introspect::{
    config_schema, overrides_schema, theme_schema, FieldWidget, SettingDefault, SettingKind,
};
use dynamicnoti::names::NameMap;
use dynamicnoti::number::{Number, Readings, F32};
use dynamicnoti::scene::{
    build, build_leaf, build_texts, enum_icon, primitive_same_shape, Align, LayoutAttrs, Primitive,
    ProgressMode, Scene,
};
use dynamicnoti::template::{
    default_anim_profile, ContainerCommon, FieldKind, FieldSpec, LayoutNode, LeafSpec,
    PrimitiveKind, TypeMeta, TypeTemplate,
};
use dynamicnoti::theme::Theme;
use dynamicnoti::{CoreError, RawNotification, SourceKind};
use indexmap::IndexMap;
use std::borrow::Cow;
use std::sync::Arc;

fn single(v: f32) -> F32 {
    F32(v.to_bits())
}

fn number(v: f64) -> Number {
    Number { bits: v.to_bits(), text: v.to_string() }
}

fn float(v: f64) -> Value {
    Value::Float(number(v))
}

fn text(s: &str) -> Value {
    Value::Text(s.to_string())
}

fn fields(list: &[(&str, Value)]) -> Fields {
    let mut m: Fields = NameMap::new();
    for (k, v) in list {
        m.insert(k.to_string(), v.clone());
    }
    m
}

/// A table that reads each of these texts as the number that they denote.
fn readings(texts: &[String]) -> Readings {
    let mut m: Readings = NameMap::new();
    for t in texts {
        if let Ok(v) = t.parse::<f64>() {
            m.insert(t.clone(), number(v));
        }
    }
    m
}

fn nothing() -> Readings {
    NameMap::new()
}

// ---- values and bindings -----------------------------------------------------------------

#[test]
fn format_binding_interpolates_fields() {
    let values = fields(&[("artist", text("Boards of Canada")), ("title", text("Roygbiv"))]);
    let b = Binding::Format("{artist} — {title}".into());
    assert_eq!(b.resolve_text(&values), "Boards of Canada — Roygbiv");
}

#[test]
fn missing_field_resolves_empty() {
    let values = fields(&[]);
    let b = Binding::Format("{nope}!".into());
    assert_eq!(b.resolve_text(&values), "!");
}

#[test]
fn binding_grammar_classifies() {
    assert_eq!(Binding::parse_str("{a} {b}"), Binding::Format("{a} {b}".into()));
    assert_eq!(Binding::parse_str("art"), Binding::FieldRef("art".into()));
    assert_eq!(Binding::parse_str("=Sale"), Binding::Literal(Value::Text("Sale".into())));
    assert_eq!(
        Binding::parse_str("two words"),
        Binding::Literal(Value::Text("two words".into()))
    );
}

#[test]
fn grammar_corners() {
    assert_eq!(Binding::parse_str("\\=x"), Binding::Literal(text("=x")));
    assert_eq!(Binding::parse_str("=\\=x"), Binding::Literal(text("\\=x")));
    assert_eq!(Binding::parse_str("={a}"), Binding::Literal(text("{a}")));
    assert_eq!(Binding::parse_str("\\"), Binding::Literal(text("\\")));
    assert_eq!(Binding::parse_str(""), Binding::Literal(text("")));
    assert_eq!(Binding::parse_str("_a1"), Binding::FieldRef("_a1".into()));
    assert_eq!(Binding::parse_str("1a"), Binding::Literal(text("1a")));
    assert!(is_identifier("a_b9"));
    assert!(!is_identifier(""));
    assert!(!is_identifier("é"));
    assert!(!is_identifier("aé"));
}

#[test]
fn bindings_round_trip_through_scalars() {
    for s in ["=Sale", "\\=x", "{a} b", "art", "two words", "", "=", "=="] {
        let b = Binding::parse_str(s);
        assert_eq!(Binding::from_scalar(b.to_scalar()), b, "{s:?}");
    }
    let n = Binding::from_scalar(Scalar::Number(number(0.5)));
    assert_eq!(n, Binding::Literal(float(0.5)));
    assert_eq!(n.to_scalar(), Scalar::Number(number(0.5)));
    let t = Binding::from_scalar(Scalar::Bool(true));
    assert_eq!(t.to_scalar(), Scalar::Bool(true));
    assert_eq!(
        Binding::Literal(Value::Image("/a".into())).to_scalar(),
        Scalar::Text("=/a".into())
    );
}

#[test]
fn interpolation_corners() {
    let v = fields(&[("a", text("1")), ("b", Value::Bool(true)), ("", text("empty"))]);
    assert_eq!(interpolate("no tokens", &v), "no tokens");
    assert_eq!(interpolate("x{a}y{b}z", &v), "x1ytruez");
    assert_eq!(interpolate("open {a", &v), "open {a");
    assert_eq!(interpolate("}{a}", &v), "}1");
    assert_eq!(interpolate("{}", &v), "empty");
    assert_eq!(interpolate("{x{a}", &v), "");
    assert_eq!(interpolate("é{a}é", &v), "é1é");
}

#[test]
fn values_have_a_text_and_a_number() {
    let table = readings(&["2.5".to_string()]);
    assert_eq!(text("hi").as_text(), "hi");
    assert_eq!(Value::Image("/p".into()).as_text(), "/p");
    assert_eq!(float(0.5).as_text(), "0.5");
    assert_eq!(Value::Bool(false).as_text(), "false");
    assert_eq!(float(0.5).as_float(&table), number(0.5));
    assert_eq!(Value::Bool(true).as_float(&table), number(1.0));
    assert_eq!(text("2.5").as_float(&table), number(2.5));
    assert_eq!(text("x").as_float(&table), number(0.0));
    assert_eq!(Value::Image("2.5".into()).as_float(&table), number(0.0));
}

#[test]
fn fieldref_resolves_image_or_none() {
    let mut values = fields(&[]);
    let b = Binding::FieldRef("art".into());
    assert_eq!(b.resolve_image(&values), None);
    values.insert("art".into(), Value::Image("/tmp/cover.png".into()));
    assert_eq!(b.resolve_image(&values), Some("/tmp/cover.png".into()));
}

#[test]
fn bindings_resolve_in_every_form() {
    let v = fields(&[("n", text("0.25")), ("e", text(""))]);
    let table = readings(&["0.25".to_string(), "10".to_string()]);
    let fmt = Binding::Format("{n}".into());
    assert_eq!(fmt.resolve_float(&v, &table), number(0.25));
    assert_eq!(Binding::FieldRef("n".into()).resolve_float(&v, &table), number(0.25));
    assert_eq!(Binding::FieldRef("m".into()).resolve_float(&v, &table), number(0.0));
    assert_eq!(Binding::Literal(text("10")).resolve_float(&v, &table), number(10.0));
    assert_eq!(Binding::Format("{e}".into()).resolve_image(&v), None);
    assert_eq!(Binding::FieldRef("e".into()).resolve_image(&v), Some(String::new()));
    assert_eq!(Binding::Literal(text("x")).resolve_image(&v), Some("x".into()));
    assert!(matches!(Binding::FieldRef("n".into()).resolve_value(&v), Some(Cow::Borrowed(x)) if *x == text("0.25")));
    assert!(matches!(fmt.resolve_value(&v), Some(Cow::Owned(x)) if x == text("0.25")));
    assert!(Binding::FieldRef("m".into()).resolve_value(&v).is_none());
    assert_eq!(fmt.float_text(&v), Some("0.25".into()));
    assert_eq!(Binding::Literal(Value::Bool(true)).float_text(&v), None);
}

// ---- shape -------------------------------------------------------------------------------

fn card(title: &str, progress: f32) -> Scene {
    Scene::Row {
        attrs: LayoutAttrs::default(),
        children: vec![
            Scene::Leaf(Primitive::Text { content: title.into(), style: "title".into() }),
            Scene::Leaf(Primitive::Progress {
                value: number(progress as f64),
                mode: ProgressMode::Value,
                style: "bar".into(),
            }),
        ],
    }
}

#[test]
fn same_shape_ignores_progress_value_only() {
    // Only the progress value moved: same shape (update in place, no morph).
    assert!(card("Roygbiv", 0.10).same_shape(&card("Roygbiv", 0.42)));
    // Title changed: different shape (a real morph).
    assert!(!card("Roygbiv", 0.10).same_shape(&card("Telephasic", 0.10)));
    // Structural difference (child count): different shape.
    let bare = Scene::Row { attrs: LayoutAttrs::default(), children: vec![] };
    assert!(!card("Roygbiv", 0.1).same_shape(&bare));
}

#[test]
fn same_shape_distinguishes_progress_mode() {
    let value_bar = Scene::Leaf(Primitive::Progress {
        value: number(1.0),
        mode: ProgressMode::Value,
        style: "bar".into(),
    });
    let lifetime_bar = Scene::Leaf(Primitive::Progress {
        value: number(1.0),
        mode: ProgressMode::Lifetime,
        style: "bar".into(),
    });
    assert!(!value_bar.same_shape(&lifetime_bar));
}

#[test]
fn shape_sees_geometry() {
    let row = |w: f32| Scene::Row {
        attrs: LayoutAttrs { padding: [single(0.0), single(1.0)], align: Align::End, weight: single(w) },
        children: vec![],
    };
    assert!(row(1.0).same_shape(&row(1.0)));
    assert!(!row(1.0).same_shape(&row(2.0)));
    assert!(row(0.0).same_shape(&row(-0.0)));
    assert!(!row(f32::NAN).same_shape(&row(f32::NAN)));
    let col = Scene::Column { attrs: LayoutAttrs::default(), children: vec![] };
    let stack = Scene::Stack { attrs: LayoutAttrs::default(), children: vec![] };
    assert!(!col.same_shape(&stack));
    assert!(col.same_shape(&col.clone()));
    assert!(!primitive_same_shape(
        &Primitive::Spacer { size: single(1.0) },
        &Primitive::Spacer { size: single(2.0) }
    ));
}

#[test]
fn shape_is_symmetric() {
    let scenes = [card("a", 0.1), card("a", 0.9), card("b", 0.1)];
    for x in &scenes {
        for y in &scenes {
            assert_eq!(x.same_shape(y), y.same_shape(x));
        }
    }
}

#[test]
fn scenes_are_copied_whole() {
    let s = Scene::Stack { attrs: LayoutAttrs::default(), children: vec![card("a", 0.5)] };
    assert!(s.same_shape(&s.clone()));
}

// ---- leaves ------------------------------------------------------------------------------

fn leaf(primitive: PrimitiveKind, binding: Option<Binding>) -> LeafSpec {
    LeafSpec {
        primitive,
        binding,
        value: None,
        style: None,
        speed_px_s: None,
        radius: None,
        fit: None,
        size: None,
    }
}

#[test]
fn lifetime_value_binding_sets_mode() {
    let progress_leaf = |value: Option<Binding>| LeafSpec {
        primitive: PrimitiveKind::Progress,
        binding: None,
        value,
        style: Some("bar".into()),
        speed_px_s: None,
        radius: None,
        fit: None,
        size: None,
    };
    let fields = fields(&[]);
    assert!(matches!(
        build_leaf(&progress_leaf(Some(Binding::FieldRef("lifetime".into()))), &fields, &nothing()),
        Some(Primitive::Progress { mode: ProgressMode::Lifetime, .. })
    ));
    // A normal float source stays a Value bar.
    match build_leaf(&progress_leaf(Some(Binding::Literal(float(0.5)))), &fields, &nothing()) {
        Some(Primitive::Progress { mode: ProgressMode::Value, value, .. }) => {
            assert!((f64::from_bits(value.bits) - 0.5).abs() < 1e-6)
        }
        other => panic!("expected a Value progress, got {other:?}"),
    }
}

#[test]
fn leaves_build_with_their_defaults() {
    let f = fields(&[("s", text("playing")), ("art", text("/a.png"))]);
    let t = nothing();
    assert_eq!(
        build_leaf(&leaf(PrimitiveKind::Text, None), &f, &t),
        Some(Primitive::Text { content: String::new(), style: String::new() })
    );
    assert_eq!(
        build_leaf(&leaf(PrimitiveKind::Marquee, Some(Binding::FieldRef("s".into()))), &f, &t),
        Some(Primitive::Marquee {
            content: "playing".into(),
            style: String::new(),
            speed_px_s: single(30.0)
        })
    );
    assert_eq!(
        build_leaf(&leaf(PrimitiveKind::Image, Some(Binding::FieldRef("art".into()))), &f, &t),
        Some(Primitive::Image { handle: "/a.png".into(), radius: single(0.0) })
    );
    assert_eq!(build_leaf(&leaf(PrimitiveKind::Image, None), &f, &t), None);
    assert_eq!(
        build_leaf(&leaf(PrimitiveKind::Icon, Some(Binding::FieldRef("s".into()))), &f, &t),
        Some(Primitive::Icon { name: "\u{f04b}".into(), style: String::new() })
    );
    assert_eq!(
        build_leaf(&leaf(PrimitiveKind::Progress, Some(Binding::Literal(float(7.0)))), &f, &t),
        Some(Primitive::Progress {
            value: number(1.0),
            mode: ProgressMode::Value,
            style: String::new()
        })
    );
    assert_eq!(
        build_leaf(&leaf(PrimitiveKind::Spacer, None), &f, &t),
        Some(Primitive::Spacer { size: single(0.0) })
    );
    assert_eq!(enum_icon("paused"), Some("\u{f04c}"));
    assert_eq!(enum_icon("stopped"), Some("\u{f04d}"));
    assert_eq!(enum_icon("dialog-information"), None);
}

// ---- binding a notification to its type --------------------------------------------------

fn spec(kind: FieldKind, required: bool, default: Option<Value>) -> FieldSpec {
    FieldSpec { kind, required, default, values: vec![], min: None, max: None, doc: None }
}

fn template(name: &str, specs: Vec<(&str, FieldSpec)>, layout: LayoutNode) -> TypeTemplate {
    let mut fields = IndexMap::new();
    for (k, s) in specs {
        fields.insert(k.to_string(), s);
    }
    TypeTemplate {
        meta: TypeMeta {
            name: name.to_string(),
            priority: 0,
            timeout_ms: 0,
            anim_profile: default_anim_profile(),
            replace_key: None,
        },
        fields,
        layout,
        overrides: None,
    }
}

fn title_layout() -> LayoutNode {
    LayoutNode::Leaf { leaf: leaf(PrimitiveKind::Text, Some(Binding::Format("{title}".into()))) }
}

fn generic() -> Arc<TypeTemplate> {
    let mut t = template(
        "generic",
        vec![
            ("title", spec(FieldKind::String, true, None)),
            ("body", spec(FieldKind::String, false, Some(text("")))),
        ],
        title_layout(),
    );
    t.meta.priority = 20;
    Arc::new(t)
}

fn song() -> Arc<TypeTemplate> {
    let mut t = template(
        "song",
        vec![
            ("title", spec(FieldKind::String, true, None)),
            ("art", spec(FieldKind::Image, false, None)),
        ],
        title_layout(),
    );
    t.meta.timeout_ms = 4000;
    t.meta.replace_key = Some("mpris:single".into());
    Arc::new(t)
}

/// A type exercising the float-clamp and enum-fallback paths.
fn schema() -> Arc<TypeTemplate> {
    let mut amount = spec(FieldKind::Float, false, Some(float(0.0)));
    amount.min = Some(number(0.0));
    amount.max = Some(number(1.0));
    let mut status = spec(FieldKind::Enum, false, Some(text("playing")));
    status.values = vec!["playing".into(), "paused".into()];
    Arc::new(template(
        "schema",
        vec![
            ("title", spec(FieldKind::String, true, None)),
            ("amount", amount),
            ("status", status),
        ],
        title_layout(),
    ))
}

fn raw(list: &[(&str, Value)]) -> RawNotification {
    RawNotification {
        source: SourceKind::Ipc,
        app_name: "test".into(),
        requested_type: None,
        replace_key: None,
        fields: fields(list),
    }
}

#[test]
fn missing_required_field_errors() {
    let t = generic();
    let err = bind(t, raw(&[]), &nothing()).unwrap_err();
    assert!(matches!(err, CoreError::MissingField { .. }));
}

#[test]
fn default_applied_for_absent_optional() {
    let t = generic();
    let b = bind(t, raw(&[("title", Value::Text("Hi".into()))]), &nothing()).unwrap();
    // body has default "": present and empty.
    assert_eq!(b.fields.get("body"), Some(&Value::Text(String::new())));
}

#[test]
fn float_is_clamped() {
    let t = schema();
    let b = bind(
        t,
        raw(&[("title", Value::Text("x".into())), ("amount", float(5.0))]),
        &nothing(),
    )
    .unwrap();
    // amount declares min/max 0..1, so 5.0 clamps down to 1.0.
    assert_eq!(b.fields.get("amount"), Some(&float(1.0)));
}

#[test]
fn invalid_enum_falls_back_to_default() {
    let t = schema();
    let b = bind(
        t,
        raw(&[("title", Value::Text("x".into())), ("status", Value::Text("nope".into()))]),
        &nothing(),
    )
    .unwrap();
    // "nope" not in [playing, paused]: default "playing".
    assert_eq!(b.fields.get("status"), Some(&Value::Text("playing".into())));
}

#[test]
fn image_field_coerces_to_image_value() {
    let t = song();
    let b = bind(
        t,
        raw(&[("title", Value::Text("x".into())), ("art", Value::Text("/a.png".into()))]),
        &nothing(),
    )
    .unwrap();
    assert_eq!(b.fields.get("art"), Some(&Value::Image("/a.png".into())));
}

#[test]
fn replace_key_defaults_from_template() {
    let t = song();
    let b = bind(t, raw(&[("title", Value::Text("x".into()))]), &nothing()).unwrap();
    assert_eq!(b.replace_key.as_deref(), Some("mpris:single"));
}

#[test]
fn first_missing_field_is_named() {
    let t = Arc::new(template(
        "pair",
        vec![
            ("a", spec(FieldKind::String, false, None)),
            ("b", spec(FieldKind::String, true, None)),
            ("c", spec(FieldKind::String, true, None)),
        ],
        title_layout(),
    ));
    let err = bind(t, raw(&[("a", text("x"))]), &nothing()).unwrap_err();
    assert_eq!(err, CoreError::MissingField { ty: "pair".into(), field: "b".into() });
}

#[test]
fn binding_keeps_behavior_and_own_replace_key() {
    let mut r = raw(&[("title", text("x"))]);
    r.replace_key = Some("mine".into());
    let b = bind(song(), r, &nothing()).unwrap();
    assert_eq!(b.replace_key.as_deref(), Some("mine"));
    assert_eq!(b.type_key, "song");
    assert_eq!((b.behavior.priority, b.behavior.timeout_ms), (0, 4000));
    assert_eq!(b.template.meta.name, "song");
}

#[test]
fn undeclared_fields_pass_through_and_invalid_ones_are_dropped() {
    let mut mood = spec(FieldKind::Enum, false, None);
    mood.values = vec!["calm".into()];
    let t = Arc::new(template("t", vec![("mood", mood)], title_layout()));
    let b = bind(t, raw(&[("mood", text("wild")), ("app_name", float(2.0))]), &nothing()).unwrap();
    assert_eq!(b.fields.get("mood"), None);
    assert_eq!(b.fields.get("app_name"), Some(&float(2.0)));
}

#[test]
fn values_are_coerced_to_their_kind() {
    let t = readings(&["3.5".to_string()]);
    let s = |k| spec(k, false, None);
    assert_eq!(coerce(&float(2.5), &s(FieldKind::String), &t), Some(text("2.5")));
    assert_eq!(coerce(&text("x"), &s(FieldKind::Icon), &t), Some(text("x")));
    assert_eq!(coerce(&text("1"), &s(FieldKind::Bool), &t), Some(Value::Bool(true)));
    assert_eq!(coerce(&text("yes"), &s(FieldKind::Bool), &t), Some(Value::Bool(false)));
    assert_eq!(coerce(&float(1.0), &s(FieldKind::Bool), &t), Some(Value::Bool(true)));
    assert_eq!(coerce(&Value::Bool(true), &s(FieldKind::Bool), &t), Some(Value::Bool(true)));
    assert_eq!(coerce(&text("3.5"), &s(FieldKind::Float), &t), Some(float(3.5)));
    assert_eq!(coerce(&text("abc"), &s(FieldKind::Float), &t), Some(float(0.0)));
    assert_eq!(coerce(&text("any"), &s(FieldKind::Enum), &t), Some(text("any")));
}

#[test]
fn texts_to_read_are_listed() {
    let t = schema();
    let f = fields(&[("title", text("7")), ("amount", text("0.5"))]);
    assert_eq!(bind_texts(&t, &f), vec!["0.5".to_string()]);
    let layout = LayoutNode::Row {
        common: ContainerCommon::default(),
        children: vec![
            LayoutNode::Leaf {
                leaf: leaf(PrimitiveKind::Progress, Some(Binding::Format("{amount}".into()))),
            },
            LayoutNode::Leaf {
                leaf: leaf(PrimitiveKind::Progress, Some(Binding::FieldRef("lifetime".into()))),
            },
        ],
    };
    assert_eq!(build_texts(&layout, &f), vec!["0.5".to_string()]);
}

#[test]
fn a_layout_builds_into_a_scene() {
    let layout = LayoutNode::Row {
        common: ContainerCommon {
            padding: Some([single(10.0), single(14.0)]),
            align: Some(Align::Start),
            weight: None,
        },
        children: vec![
            LayoutNode::Leaf { leaf: leaf(PrimitiveKind::Image, Some(Binding::FieldRef("art".into()))) },
            LayoutNode::Column {
                common: ContainerCommon::default(),
                children: vec![title_layout()],
            },
        ],
    };
    let t = Arc::new(template("t", vec![], layout));
    let style = Theme::default().resolve_style(None);
    let b = bind(t, raw(&[("title", text("Hi"))]), &nothing()).unwrap();
    // The image leaf has nothing to show and is dropped.
    let want = Scene::Row {
        attrs: LayoutAttrs {
            padding: [single(10.0), single(14.0)],
            align: Align::Start,
            weight: single(1.0),
        },
        children: vec![Scene::Column {
            attrs: LayoutAttrs::default(),
            children: vec![Scene::Leaf(Primitive::Text { content: "Hi".into(), style: "".into() })],
        }],
    };
    assert!(build(&b, &style, &nothing()).same_shape(&want));
}

#[test]
fn a_root_without_content_builds_an_empty_row() {
    let layout = LayoutNode::Leaf { leaf: leaf(PrimitiveKind::Image, None) };
    let b = bind(Arc::new(template("t", vec![], layout)), raw(&[]), &nothing()).unwrap();
    let style = Theme::default().resolve_style(None);
    let empty = Scene::Row { attrs: LayoutAttrs::default(), children: vec![] };
    assert!(build(&b, &style, &nothing()).same_shape(&empty));
}

// ---- introspection -----------------------------------------------------------------------

#[test]
fn field_metas_preserve_order_and_kind() {
    let mut status = spec(FieldKind::Enum, false, Some(text("playing")));
    status.values = vec!["playing".into(), "paused".into()];
    let t = template(
        "schema",
        vec![("title", spec(FieldKind::String, true, None)), ("status", status)],
        title_layout(),
    );
    let metas = t.field_metas(&nothing());
    // title is declared first.
    assert_eq!(metas[0].name, "title");
    assert!(metas[0].required);
    // status is the enum field.
    let status = metas.iter().find(|m| m.name == "status").unwrap();
    assert!(matches!(status.widget, FieldWidget::Enum { .. }));
}

#[test]
fn widgets_carry_their_constraints() {
    let t = readings(&["2".to_string()]);
    let mut f = spec(FieldKind::Float, false, Some(text("2")));
    f.min = Some(number(0.0));
    f.doc = Some("how much".into());
    let m = f.meta("amount", &t);
    assert_eq!(m.name, "amount");
    assert_eq!(m.doc.as_deref(), Some("how much"));
    assert_eq!(
        m.widget,
        FieldWidget::Float { min: Some(number(0.0)), max: None, default: Some(number(2.0)) }
    );
    let b = spec(FieldKind::Bool, false, Some(text("2")));
    assert_eq!(b.meta("b", &t).widget, FieldWidget::Bool { default: Some(true) });
    let b = spec(FieldKind::Bool, false, Some(text("true")));
    assert_eq!(b.meta("b", &t).widget, FieldWidget::Bool { default: Some(false) });
    let s = spec(FieldKind::String, false, None);
    assert_eq!(s.meta("s", &t).widget, FieldWidget::Text { default: None });
    let i = spec(FieldKind::Image, false, Some(text("/x")));
    assert_eq!(i.meta("i", &t).widget, FieldWidget::Image { default: Some("/x".into()) });
    let i = spec(FieldKind::Icon, false, Some(float(0.5)));
    assert_eq!(i.meta("i", &t).widget, FieldWidget::Icon { default: Some("0.5".into()) });
}

#[test]
fn schemas_are_nonempty_and_exact() {
    assert_eq!(theme_schema().len(), 15);
    assert_eq!(config_schema().len(), 6);
    assert_eq!(overrides_schema().len(), 9);
    let r = &theme_schema()[5];
    assert_eq!(r.path, "island.corner_radius");
    assert_eq!(r.kind, SettingKind::Float { min: Some(number(0.0)), max: Some(number(200.0)) });
    assert_eq!(r.default, SettingDefault::Float(number(28.0)));
    assert_eq!(r.doc, "Corner radius, px.");
    assert_eq!(config_schema()[3].kind, SettingKind::Int { min: Some(1), max: Some(1) });
    assert_eq!(overrides_schema()[0].default, SettingDefault::Null);
    assert_eq!(
        config_schema()[2].kind,
        SettingKind::Enum { values: vec!["priority-preempt", "fifo"] }
    );
}
