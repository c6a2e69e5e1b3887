//! What the renderer decides.

use dynamicnoti::events::NotificationEvent;
use dynamicnoti::headless::{keeps_running, outline, Line, OutlineRow};
use dynamicnoti::image_cache::{image_path, ImageCache, Lookup};
use dynamicnoti::island::{
    pick_alpha, pick_format, Advanced, AlphaMode, Frame, ImageStep, Island, MorphStep,
};
use dynamicnoti::layout::{
    child_weight, icon_shape, items, leaf_item, text_role, with_alpha, IconShape, ItemKind,
};
use dynamicnoti::number::{Number, F32};
use dynamicnoti::phase::{
    compute_dt, exit_done, needs_frame, next_phase, FrameDelta, Phase, Settled,
};
use dynamicnoti::scene::{Align, LayoutAttrs, Primitive, ProgressMode, Scene};
use dynamicnoti::style::ResolvedStyle;
use dynamicnoti::theme::{Color, Theme};

fn single(v: f32) -> F32 {
    F32(v.to_bits())
}

fn number(v: f64) -> Number {
    Number { bits: v.to_bits(), text: v.to_string() }
}

fn style() -> ResolvedStyle {
    Theme::default().resolve_style(None)
}

fn row(children: Vec<Scene>) -> Scene {
    Scene::Row {
        attrs: LayoutAttrs {
            padding: [single(4.0), single(8.0)],
            align: Align::Center,
            weight: single(1.0),
        },
        children,
    }
}

// ---- layout ------------------------------------------------------------------------------

#[test]
fn image_leaf_produces_image_item_and_empty_icon_is_dropped() {
    let st = style();
    let scene = row(vec![
        Scene::Leaf(Primitive::Image { handle: "/tmp/a.png".into(), radius: single(8.0) }),
        Scene::Leaf(Primitive::Icon { name: String::new(), style: "icon".into() }),
    ]);
    let l = items(&scene, &st);
    assert_eq!(l.len(), 1, "image kept, empty-name icon dropped");
    assert!(matches!(l[0], ItemKind::Image { .. }));
}

#[test]
fn leaves_become_items() {
    let st = style();
    assert_eq!(
        leaf_item(&Primitive::Text { content: "a".into(), style: "title".into() }, &st),
        Some(ItemKind::Text {
            text: "a".into(),
            px: single(15.0),
            family: "Noto Sans".into(),
            color: st.title_color,
            scrolls: false,
            speed: single(0.0),
        })
    );
    assert_eq!(
        leaf_item(
            &Primitive::Marquee { content: "b".into(), style: "x".into(), speed_px_s: single(9.0) },
            &st
        ),
        Some(ItemKind::Text {
            text: "b".into(),
            px: single(12.0),
            family: "Noto Sans".into(),
            color: st.title_color,
            scrolls: true,
            speed: single(9.0),
        })
    );
    assert_eq!(
        leaf_item(
            &Primitive::Progress {
                value: number(0.5),
                mode: ProgressMode::Lifetime,
                style: "bar".into()
            },
            &st
        ),
        Some(ItemKind::Progress {
            value: number(0.5),
            mode: ProgressMode::Lifetime,
            track: Color { a: 64, ..st.subtitle_color },
            fill: st.accent,
        })
    );
    assert_eq!(leaf_item(&Primitive::Spacer { size: single(4.0) }, &st), None);
    assert_eq!(
        leaf_item(&Primitive::Icon { name: "\u{f04c}".into(), style: "".into() }, &st),
        Some(ItemKind::Icon { shape: IconShape::Pause, color: st.icon_color })
    );
}

#[test]
fn shapes_roles_and_weights() {
    assert_eq!(icon_shape("\u{f04b}"), IconShape::Play);
    assert_eq!(icon_shape("\u{f04d}"), IconShape::Stop);
    assert_eq!(icon_shape("?"), IconShape::Dot);
    let st = style();
    assert_eq!(text_role("title", &st), (st.title_px, st.title_color));
    assert_eq!(text_role("subtitle", &st), (st.subtitle_px, st.subtitle_color));
    assert_eq!(text_role("", &st), (st.subtitle_px, st.title_color));
    assert_eq!(with_alpha(Color::rgba(1, 2, 3, 4), 9), Color::rgba(1, 2, 3, 9));
    assert_eq!(child_weight(&row(vec![])), single(1.0));
    assert_eq!(child_weight(&Scene::Leaf(Primitive::Spacer { size: single(4.0) })), single(0.0));
}

#[test]
fn items_follow_the_tree() {
    let t = |s: &str| Scene::Leaf(Primitive::Text { content: s.into(), style: "title".into() });
    let stack = Scene::Stack { attrs: LayoutAttrs::default(), children: vec![t("b"), t("c")] };
    let texts: Vec<String> = items(&row(vec![t("a"), stack, t("d")]), &style())
        .into_iter()
        .map(|k| match k {
            ItemKind::Text { text, .. } => text,
            other => panic!("{other:?}"),
        })
        .collect();
    assert_eq!(texts, vec!["a", "b", "c", "d"]);
}

#[test]
fn scenes_of_one_shape_have_as_many_items() {
    let bar = |v| {
        row(vec![Scene::Leaf(Primitive::Progress {
            value: number(v),
            mode: ProgressMode::Value,
            style: "bar".into(),
        })])
    };
    assert!(bar(0.1).same_shape(&bar(0.9)));
    assert_eq!(items(&bar(0.1), &style()).len(), items(&bar(0.9), &style()).len());
}

// ---- phases ------------------------------------------------------------------------------

fn moving() -> Settled {
    Settled {
        width: true,
        height: true,
        scale: true,
        opacity: true,
        corner_radius: true,
        crossfade: false,
    }
}

fn still() -> Settled {
    Settled { crossfade: true, ..moving() }
}

fn seconds(d: FrameDelta) -> f32 {
    match d {
        FrameDelta::Nominal => 1.0 / 60.0,
        FrameDelta::Millis(ms) => ms as f32 / 1000.0,
        FrameDelta::Capped => 1.0 / 30.0,
    }
}

#[test]
fn dt_clamps_and_wraps() {
    let dt = |prev, now| seconds(compute_dt(prev, now));
    assert_eq!(dt(None, 123), 1.0 / 60.0);
    assert!((dt(Some(1000), 1016) - 0.016).abs() < 1e-4);
    // A 5-second hitch clamps to 1/30.
    assert_eq!(dt(Some(0), 5000), 1.0 / 30.0);
    // u32 wraparound: now < prev numerically, but wrapping_sub gives the true small delta.
    assert!((dt(Some(u32::MAX - 5), 10) - 0.016).abs() < 1e-3);
}

#[test]
fn the_cap_lies_between_33_and_34_ms() {
    assert_eq!(compute_dt(Some(0), 33), FrameDelta::Millis(33));
    assert_eq!(compute_dt(Some(0), 34), FrameDelta::Capped);
    assert!(33.0f32 / 1000.0 < 1.0 / 30.0 && 34.0f32 / 1000.0 > 1.0 / 30.0);
}

#[test]
fn phases_end_when_their_springs_rest() {
    assert_eq!(next_phase(Phase::Enter, moving()), Phase::Idle);
    assert_eq!(next_phase(Phase::Enter, Settled { width: false, ..still() }), Phase::Enter);
    assert_eq!(next_phase(Phase::Morph, moving()), Phase::Morph);
    assert_eq!(next_phase(Phase::Morph, still()), Phase::Idle);
    assert_eq!(next_phase(Phase::Exit, still()), Phase::Exit);
    assert_eq!(next_phase(Phase::Idle, moving()), Phase::Idle);
}

#[test]
fn frames_are_asked_for_while_something_moves() {
    assert!(!needs_frame(Phase::Idle, still(), false));
    assert!(needs_frame(Phase::Idle, still(), true));
    assert!(needs_frame(Phase::Idle, moving(), false));
    assert!(needs_frame(Phase::Exit, still(), false));
    assert!(exit_done(Phase::Exit, true));
    assert!(!exit_done(Phase::Exit, false));
    assert!(!exit_done(Phase::Idle, true));
}

// ---- images ------------------------------------------------------------------------------

#[test]
fn images_are_loaded_once() {
    let mut c: ImageCache<u32> = ImageCache::new();
    assert_eq!(c.lookup("a"), Lookup::Load);
    c.store("a", Some(1));
    assert_eq!(c.lookup("a"), Lookup::Ready);
    assert_eq!(c.peek("a"), Some(&1));
    c.store("b", None);
    assert_eq!(c.lookup("b"), Lookup::Failed);
    assert_eq!(c.peek("b"), None);
    c.insert_decoded("b", 2);
    assert_eq!(c.lookup("b"), Lookup::Ready);
    assert_eq!(c.peek("b"), Some(&2));
    assert_eq!(image_path("file:///x"), "/x");
    assert_eq!(image_path("/x"), "/x");
}

// ---- the island --------------------------------------------------------------------------

const MOVING: Option<Advanced> = Some(Advanced { past_midpoint: false, exit_done: false });
const GONE: Option<Advanced> = Some(Advanced { past_midpoint: false, exit_done: true });

#[test]
fn a_surface_is_painted_once_configured() {
    let mut i = Island::new();
    assert_eq!(i.frame(None), Frame::Skip);
    i.begin_show();
    assert_eq!(i.shown(3, 520, 400, 64), (520, 64));
    assert_eq!(i.frame(MOVING), Frame::Skip);
    assert_eq!(i.configure(0, 0), Some((520, 64)));
    assert_eq!(i.frame(MOVING), Frame::Paint { log: true });
    assert_eq!(i.frame(MOVING), Frame::Paint { log: true });
    assert_eq!(i.frame(MOVING), Frame::Paint { log: false });
    for _ in 0..56 {
        i.frame(MOVING);
    }
    assert_eq!(i.frame(MOVING), Frame::Paint { log: true });
    assert_eq!(i.configure(300, 0), Some((300, 64)));
}

#[test]
fn morphs_grow_and_crossfade() {
    let mut i = Island::new();
    assert_eq!(i.morph(3, false, 80), MorphStep::Ignore);
    i.shown(3, 520, 400, 64);
    assert_eq!(i.morph(4, false, 80), MorphStep::Ignore);
    assert_eq!(i.morph(3, true, 64), MorphStep::Repaint { crossfade: false });
    assert!(!i.surface.unwrap().fading);
    assert_eq!(
        i.morph(3, false, 80),
        MorphStep::Resize { crossfade: true, width: 520, height: 80 }
    );
    assert!(i.surface.unwrap().fading);
    assert_eq!(i.morph(3, false, 64), MorphStep::Repaint { crossfade: true });
    assert_eq!(i.surface.unwrap().height, 80);
    i.frame(Some(Advanced { past_midpoint: true, exit_done: false }));
    assert!(!i.surface.unwrap().fading);
}

#[test]
fn closing_and_shutting_down() {
    let mut i = Island::new();
    assert!(!i.close(1));
    assert_eq!(i.image_ready(), ImageStep::Drop);
    i.shown(1, 10, 20, 5);
    assert!(i.close(1));
    assert_eq!(i.image_ready(), ImageStep::Upload { repaint: true });
    assert_eq!(i.frame(GONE), Frame::Destroyed);
    assert!(!i.exit);
    assert_eq!(i.image_ready(), ImageStep::Upload { repaint: false });
    i.shown(2, 10, 20, 5);
    assert!(i.shutdown());
    assert!(!i.exit);
    assert_eq!(i.frame(GONE), Frame::Destroyed);
    assert!(i.exit);
    let mut j = Island::new();
    assert!(!j.shutdown());
    assert!(j.exit);
    let mut k = Island::new();
    k.shown(2, 10, 20, 5);
    k.lost();
    assert_eq!(k.configure(1, 1), None);
}

#[test]
fn formats_and_alpha_modes() {
    assert_eq!(pick_format(&vec![false, true, true]), 1);
    assert_eq!(pick_format(&vec![false, false]), 0);
    assert_eq!(pick_alpha(&vec![AlphaMode::Opaque, AlphaMode::PostMultiplied, AlphaMode::PreMultiplied]), AlphaMode::PreMultiplied);
    assert_eq!(pick_alpha(&vec![AlphaMode::Opaque, AlphaMode::PostMultiplied]), AlphaMode::PostMultiplied);
    assert_eq!(pick_alpha(&vec![AlphaMode::Inherit, AlphaMode::Opaque]), AlphaMode::Inherit);
    assert_eq!(pick_alpha(&vec![]), AlphaMode::Auto);
}

// ---- without a screen --------------------------------------------------------------------

#[test]
fn a_scene_is_outlined() {
    let leaf = || Primitive::Spacer { size: single(1.0) };
    let s = Scene::Column {
        attrs: LayoutAttrs::default(),
        children: vec![
            Scene::Stack {
                attrs: LayoutAttrs::default(),
                children: vec![Scene::Leaf(leaf())],
            },
            row(vec![]),
        ],
    };
    let at = |depth, line| OutlineRow { depth, line };
    assert_eq!(
        outline(&s),
        vec![
            at(1, Line::Column),
            at(2, Line::Stack),
            at(3, Line::Leaf(leaf())),
            at(2, Line::Row)
        ]
    );
    assert!(keeps_running(&NotificationEvent::ConfigReloaded));
    assert!(!keeps_running(&NotificationEvent::Shutdown));
}
