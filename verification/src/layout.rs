//! What a scene puts on the island: which items, in which order, in which text role and color. The
//! geometry of the items is computed where the fonts are.

use vstd::prelude::*;

use crate::number::{F32, Number, NumberView};
use crate::scene;
use crate::scene::{Primitive, PrimitiveView, ProgressMode, Scene, SceneView};
use crate::style::ResolvedStyle;
use crate::text;
use crate::theme::Color;

verus! {

/// Geometric media-control glyphs.
#[derive(Clone, Copy, Debug, PartialEq, Eq, Structural)]
pub enum IconShape {
    Play,
    Pause,
    Stop,
    Dot,
}

/// The glyph that an icon name stands for; a dot for any that is not a playback state.
pub open spec fn icon_shape_spec(name: Seq<char>) -> IconShape {
    if name == "\u{f04b}"@ || name == "playing"@ {
        IconShape::Play
    } else if name == "\u{f04c}"@ || name == "paused"@ {
        IconShape::Pause
    } else if name == "\u{f04d}"@ || name == "stopped"@ {
        IconShape::Stop
    } else {
        IconShape::Dot
    }
}

/// The glyph that an icon name stands for.
pub fn icon_shape(name: &str) -> (r: IconShape)
    ensures
        r == icon_shape_spec(name@),
{
    if text::same(name, "\u{f04b}") || text::same(name, "playing") {
        IconShape::Play
    } else if text::same(name, "\u{f04c}") || text::same(name, "paused") {
        IconShape::Pause
    } else if text::same(name, "\u{f04d}") || text::same(name, "stopped") {
        IconShape::Stop
    } else {
        IconShape::Dot
    }
}

/// The size and color of a text role.
pub open spec fn text_role_spec(role: Seq<char>, st: ResolvedStyle) -> (F32, Color) {
    if role == "title"@ {
        (st.title_px, st.title_color)
    } else if role == "subtitle"@ {
        (st.subtitle_px, st.subtitle_color)
    } else {
        (st.subtitle_px, st.title_color)
    }
}

/// The size and color of a text role.
pub fn text_role(role: &str, st: &ResolvedStyle) -> (r: (F32, Color))
    ensures
        r == text_role_spec(role@, *st),
{
    if text::same(role, "title") {
        (st.title_px, st.title_color)
    } else if text::same(role, "subtitle") {
        (st.subtitle_px, st.subtitle_color)
    } else {
        (st.subtitle_px, st.title_color)
    }
}

/// A color with another alpha.
pub fn with_alpha(c: Color, a: u8) -> (r: Color)
    ensures
        r == (Color { a, ..c }),
{
    Color { r: c.r, g: c.g, b: c.b, a }
}

/// The flex weight of a node along its container's main axis: containers carry it, leaves are
/// fixed.
pub open spec fn weight_spec(s: SceneView) -> F32 {
    match s {
        SceneView::Row { attrs, .. } => attrs.weight,
        SceneView::Column { attrs, .. } => attrs.weight,
        SceneView::Stack { attrs, .. } => attrs.weight,
        SceneView::Leaf(_) => F32(0),
    }
}

/// The flex weight of a node along its container's main axis.
pub fn child_weight(node: &Scene) -> (r: F32)
    ensures
        r == weight_spec(node@),
{
    proof {
        scene::lemma_model(*node);
    }
    match node {
        Scene::Row { attrs, .. } => attrs.weight,
        Scene::Column { attrs, .. } => attrs.weight,
        Scene::Stack { attrs, .. } => attrs.weight,
        Scene::Leaf(_) => F32(0),
    }
}

/// What one item shows.
#[derive(Debug, PartialEq, Eq)]
pub enum ItemKind {
    Text {
        text: String,
        px: F32,
        family: String,
        color: Color,
        /// Whether the text scrolls where it is wider than its box.
        scrolls: bool,
        /// Scroll speed in px/s (0 for static text).
        speed: F32,
    },
    Image { handle: String, radius: F32 },
    Progress { value: Number, mode: ProgressMode, track: Color, fill: Color },
    Icon { shape: IconShape, color: Color },
}

/// The view of an [`ItemKind`].
pub enum ItemKindView {
    Text {
        text: Seq<char>,
        px: F32,
        family: Seq<char>,
        color: Color,
        scrolls: bool,
        speed: F32,
    },
    Image { handle: Seq<char>, radius: F32 },
    Progress { value: NumberView, mode: ProgressMode, track: Color, fill: Color },
    Icon { shape: IconShape, color: Color },
}

impl View for ItemKind {
    type V = ItemKindView;

    open spec fn view(&self) -> ItemKindView {
        match *self {
            ItemKind::Text { text, px, family, color, scrolls, speed } => ItemKindView::Text {
                text: text@,
                px,
                family: family@,
                color,
                scrolls,
                speed,
            },
            ItemKind::Image { handle, radius } => ItemKindView::Image { handle: handle@, radius },
            ItemKind::Progress { value, mode, track, fill } => ItemKindView::Progress {
                value: value@,
                mode,
                track,
                fill,
            },
            ItemKind::Icon { shape, color } => ItemKindView::Icon { shape, color },
        }
    }
}

/// The views of a list of items.
pub open spec fn item_views(v: Seq<ItemKind>) -> Seq<ItemKindView> {
    v.map_values(|k: ItemKind| k@)
}

/// The item of a leaf; none for a spacer and for an icon without a name.
pub open spec fn leaf_item_spec(p: PrimitiveView, st: ResolvedStyle) -> Option<ItemKindView> {
    match p {
        PrimitiveView::Text { content, style } => Some(
            ItemKindView::Text {
                text: content,
                px: text_role_spec(style, st).0,
                family: st.font_ui@,
                color: text_role_spec(style, st).1,
                scrolls: false,
                speed: F32(0),
            },
        ),
        PrimitiveView::Marquee { content, style, speed_px_s } => Some(
            ItemKindView::Text {
                text: content,
                px: text_role_spec(style, st).0,
                family: st.font_ui@,
                color: text_role_spec(style, st).1,
                scrolls: true,
                speed: speed_px_s,
            },
        ),
        PrimitiveView::Image { handle, radius } => Some(ItemKindView::Image { handle, radius }),
        PrimitiveView::Icon { name, .. } => if name.len() == 0 {
            None
        } else {
            Some(ItemKindView::Icon { shape: icon_shape_spec(name), color: st.icon_color })
        },
        PrimitiveView::Progress { value, mode, .. } => Some(
            ItemKindView::Progress {
                value,
                mode,
                track: Color { a: 64, ..st.subtitle_color },
                fill: st.accent,
            },
        ),
        PrimitiveView::Spacer { .. } => None,
    }
}

/// The items of a scene, leaf by leaf in the order of the tree.
pub open spec fn items_spec(s: SceneView, st: ResolvedStyle) -> Seq<ItemKindView>
    decreases s,
{
    match s {
        SceneView::Row { children, .. } => list_items_spec(children, st),
        SceneView::Column { children, .. } => list_items_spec(children, st),
        SceneView::Stack { children, .. } => list_items_spec(children, st),
        SceneView::Leaf(p) => match leaf_item_spec(p, st) {
            Some(k) => seq![k],
            None => Seq::empty(),
        },
    }
}

/// The items of some scenes, one after the other.
pub open spec fn list_items_spec(list: Seq<SceneView>, st: ResolvedStyle) -> Seq<ItemKindView>
    decreases list,
{
    if list.len() == 0 {
        Seq::empty()
    } else {
        list_items_spec(list.subrange(0, list.len() - 1), st) + items_spec(
            list[list.len() - 1],
            st,
        )
    }
}

/// The item of a leaf; none for a spacer and for an icon without a name.
pub fn leaf_item(p: &Primitive, st: &ResolvedStyle) -> (r: Option<ItemKind>)
    ensures
        (match r {
            Some(k) => Some(k@),
            None => None,
        }) == leaf_item_spec(p@, *st),
{
    match p {
        Primitive::Text { content, style } => {
            let (px, color) = text_role(style.as_str(), st);
            Some(
                ItemKind::Text {
                    text: content.clone(),
                    px,
                    family: st.font_ui.clone(),
                    color,
                    scrolls: false,
                    speed: F32(0),
                },
            )
        },
        Primitive::Marquee { content, style, speed_px_s } => {
            let (px, color) = text_role(style.as_str(), st);
            Some(
                ItemKind::Text {
                    text: content.clone(),
                    px,
                    family: st.font_ui.clone(),
                    color,
                    scrolls: true,
                    speed: *speed_px_s,
                },
            )
        },
        Primitive::Image { handle, radius } => Some(
            ItemKind::Image { handle: handle.clone(), radius: *radius },
        ),
        Primitive::Icon { name, .. } => if name.as_str().unicode_len() == 0 {
            None
        } else {
            Some(ItemKind::Icon { shape: icon_shape(name.as_str()), color: st.icon_color })
        },
        Primitive::Progress { value, mode, .. } => Some(
            ItemKind::Progress {
                value: value.clone(),
                mode: *mode,
                track: with_alpha(st.subtitle_color, 64),
                fill: st.accent,
            },
        ),
        Primitive::Spacer { .. } => None,
    }
}

fn items_into(s: &Scene, st: &ResolvedStyle, out: &mut Vec<ItemKind>)
    ensures
        item_views(final(out)@) == item_views(old(out)@) + items_spec(s@, *st),
    decreases s,
{
    proof {
        scene::lemma_model(*s);
    }
    match s {
        Scene::Row { children, .. } => list_into(children, st, out),
        Scene::Column { children, .. } => list_into(children, st, out),
        Scene::Stack { children, .. } => list_into(children, st, out),
        Scene::Leaf(p) => {
            match leaf_item(p, st) {
                Some(k) => out.push(k),
                None => {},
            }
            assert(item_views(out@) =~= item_views(old(out)@) + items_spec(s@, *st));
        },
    }
}

fn list_into(list: &Vec<Scene>, st: &ResolvedStyle, out: &mut Vec<ItemKind>)
    ensures
        item_views(final(out)@) == item_views(old(out)@) + list_items_spec(
            scene::scene_views(list@),
            *st,
        ),
    decreases list,
{
    let ghost views = scene::scene_views(list@);
    let ghost start = item_views(out@);
    let mut i: usize = 0;
    proof {
        assert(views.subrange(0, 0) =~= Seq::empty());
        assert(start + Seq::<ItemKindView>::empty() =~= start);
    }
    while i < list.len()
        invariant
            i <= list@.len(),
            views == scene::scene_views(list@),
            item_views(out@) == start + list_items_spec(views.subrange(0, i as int), *st),
        decreases list@.len() - i,
    {
        proof {
            assert(decreases_to!(list => list@[i as int]));
            assert(views[i as int] == list@[i as int]@);
        }
        items_into(&list[i], st, out);
        i = i + 1;
        proof {
            let now = views.subrange(0, i as int);
            assert(now.subrange(0, now.len() - 1) =~= views.subrange(0, i - 1));
            assert(now[now.len() - 1] == views[i - 1]);
            assert(item_views(out@) =~= start + list_items_spec(now, *st));
        }
    }
    assert(views.subrange(0, i as int) =~= views);
}

/// The items of a scene, leaf by leaf in the order of the tree.
pub fn items(s: &Scene, st: &ResolvedStyle) -> (r: Vec<ItemKind>)
    ensures
        item_views(r@) == items_spec(s@, *st),
{
    let mut out: Vec<ItemKind> = Vec::new();
    items_into(s, st, &mut out);
    assert(item_views(out@) =~= items_spec(s@, *st));
    out
}

proof fn lemma_same_shape_items(a: SceneView, b: SceneView, st: ResolvedStyle)
    requires
        scene::same_shape_spec(a, b),
    ensures
        items_spec(a, st).len() == items_spec(b, st).len(),
    decreases a,
{
    match (a, b) {
        (SceneView::Row { children: c, .. }, SceneView::Row { children: d, .. }) => {
            lemma_same_shape_lists(c, d, st);
        },
        (SceneView::Column { children: c, .. }, SceneView::Column { children: d, .. }) => {
            lemma_same_shape_lists(c, d, st);
        },
        (SceneView::Stack { children: c, .. }, SceneView::Stack { children: d, .. }) => {
            lemma_same_shape_lists(c, d, st);
        },
        _ => {},
    }
}

proof fn lemma_same_shape_lists(c: Seq<SceneView>, d: Seq<SceneView>, st: ResolvedStyle)
    requires
        c.len() == d.len(),
        forall|i: int| 0 <= i < c.len() ==> scene::same_shape_spec(#[trigger] c[i], d[i]),
    ensures
        list_items_spec(c, st).len() == list_items_spec(d, st).len(),
    decreases c,
{
    if c.len() > 0 {
        let n = c.len() - 1;
        let x = c.subrange(0, n);
        let y = d.subrange(0, n);
        assert forall|i: int| 0 <= i < x.len() implies scene::same_shape_spec(
            #[trigger] x[i],
            y[i],
        ) by {
            assert(scene::same_shape_spec(c[i], d[i]));
        }
        lemma_same_shape_lists(x, y, st);
        assert(scene::same_shape_spec(c[n], d[n]));
        lemma_same_shape_items(c[n], d[n], st);
    }
}

/// Scenes of the same shape have the same number of items, so an update in place finds an item for
/// each one on screen.
pub proof fn same_shape_has_as_many_items(a: SceneView, b: SceneView, st: ResolvedStyle)
    requires
        scene::same_shape_spec(a, b),
    ensures
        items_spec(a, st).len() == items_spec(b, st).len(),
{
    lemma_same_shape_items(a, b, st);
}

/// The playback states have glyphs, by name or by code point; anything else is a dot.
pub proof fn playback_states_have_glyphs(name: Seq<char>)
    ensures
        icon_shape_spec(name) == IconShape::Play <==> name == "playing"@ || name == "\u{f04b}"@,
        icon_shape_spec(name) == IconShape::Pause <==> name == "paused"@ || name == "\u{f04c}"@,
        icon_shape_spec(name) == IconShape::Stop <==> name == "stopped"@ || name == "\u{f04d}"@,
{
    reveal_strlit("playing");
    reveal_strlit("paused");
    reveal_strlit("stopped");
    reveal_strlit("\u{f04b}");
    reveal_strlit("\u{f04c}");
    reveal_strlit("\u{f04d}");
    assert("playing"@.len() == 7 && "paused"@.len() == 6 && "stopped"@.len() == 7);
    assert("\u{f04b}"@.len() == 1 && "\u{f04c}"@.len() == 1 && "\u{f04d}"@.len() == 1);
    assert("playing"@[0] == 'p' && "stopped"@[0] == 's');
    assert("\u{f04b}"@[0] == '\u{f04b}' && "\u{f04c}"@[0] == '\u{f04c}' && "\u{f04d}"@[0]
        == '\u{f04d}');
}

/// A title has the size and color of titles, a subtitle those of subtitles, and any other text the
/// size of a subtitle in the color of a title.
pub proof fn roles_have_size_and_color(role: Seq<char>, st: ResolvedStyle)
    ensures
        role == "title"@ ==> text_role_spec(role, st) == (st.title_px, st.title_color),
        role == "subtitle"@ ==> text_role_spec(role, st) == (st.subtitle_px, st.subtitle_color),
        role != "title"@ && role != "subtitle"@ ==> text_role_spec(role, st) == (
            st.subtitle_px,
            st.title_color,
        ),
{
    reveal_strlit("title");
    reveal_strlit("subtitle");
    assert("title"@.len() == 5 && "subtitle"@.len() == 8);
}

/// A text is shown in the size and color of its role, in the theme's font, at rest; a marquee is the
/// same text that scrolls at its speed.
pub proof fn texts_are_shown_in_their_role(
    content: Seq<char>,
    style: Seq<char>,
    speed_px_s: F32,
    st: ResolvedStyle,
)
    ensures
        ({
            let still = leaf_item_spec(PrimitiveView::Text { content, style }, st);
            let moving = leaf_item_spec(PrimitiveView::Marquee { content, style, speed_px_s }, st);
            &&& still is Some && still->0 is Text
            &&& still->0->text == content
            &&& still->0->family == st.font_ui@
            &&& !still->0->scrolls
            &&& still->0->speed == F32(0)
            &&& style == "title"@ ==> still->0->px == st.title_px && still->0->Text_color
                == st.title_color
            &&& style != "title"@ ==> still->0->px == st.subtitle_px
            &&& style == "subtitle"@ ==> still->0->Text_color == st.subtitle_color
            &&& style != "subtitle"@ ==> still->0->Text_color == st.title_color
            &&& moving is Some && moving->0 is Text
            &&& moving->0->text == content
            &&& moving->0->family == st.font_ui@
            &&& moving->0->scrolls
            &&& moving->0->speed == speed_px_s
            &&& moving->0->px == still->0->px
            &&& moving->0->Text_color == still->0->Text_color
        }),
{
    reveal_strlit("title");
    reveal_strlit("subtitle");
    assert("title"@.len() == 5 && "subtitle"@.len() == 8);
}

/// An image, a named icon and a progress bar show what they hold, in the theme's colors: the bar is
/// filled in the accent over a faint track in the color of subtitles. An icon without a name and a
/// spacer show nothing.
pub proof fn other_leaves_are_shown_in_the_themes_colors(p: PrimitiveView, st: ResolvedStyle)
    ensures
        ({
            let r = leaf_item_spec(p, st);
            match p {
                PrimitiveView::Text { .. } => true,
                PrimitiveView::Marquee { .. } => true,
                PrimitiveView::Image { handle, radius } => r == Some(
                    ItemKindView::Image { handle, radius },
                ),
                PrimitiveView::Icon { name, .. } => {
                    &&& r is None <==> name.len() == 0
                    &&& r is Some ==> r->0 == (ItemKindView::Icon {
                        shape: icon_shape_spec(name),
                        color: st.icon_color,
                    })
                },
                PrimitiveView::Progress { value, mode, .. } => {
                    &&& r is Some && r->0 is Progress
                    &&& r->0->value == value
                    &&& r->0->mode == mode
                    &&& r->0->fill == st.accent
                    &&& r->0->track.r == st.subtitle_color.r
                    &&& r->0->track.g == st.subtitle_color.g
                    &&& r->0->track.b == st.subtitle_color.b
                    &&& r->0->track.a == 64
                },
                PrimitiveView::Spacer { .. } => r is None,
            }
        }),
{
}

/// A container shows what its children show, and a leaf at most one item.
pub proof fn containers_show_their_children(s: SceneView, st: ResolvedStyle)
    ensures
        match s {
            SceneView::Row { children, .. } => items_spec(s, st) == list_items_spec(children, st),
            SceneView::Column { children, .. } => items_spec(s, st) == list_items_spec(
                children,
                st,
            ),
            SceneView::Stack { children, .. } => items_spec(s, st) == list_items_spec(
                children,
                st,
            ),
            SceneView::Leaf(p) => {
                &&& leaf_item_spec(p, st) is None ==> items_spec(s, st).len() == 0
                &&& leaf_item_spec(p, st) is Some ==> items_spec(s, st).len() == 1 && items_spec(
                    s,
                    st,
                )[0] == leaf_item_spec(p, st)->0
            },
        },
{
}

/// The items of children come in the order of the children.
pub proof fn items_come_in_the_order_of_the_tree(
    list: Seq<SceneView>,
    next: SceneView,
    st: ResolvedStyle,
)
    ensures
        list_items_spec(Seq::empty(), st).len() == 0,
        list_items_spec(list.push(next), st) == list_items_spec(list, st) + items_spec(next, st),
{
    let all = list.push(next);
    assert(all.subrange(0, all.len() - 1) =~= list);
    assert(all[all.len() - 1] == next);
}

/// A container weighs what its attributes say; a leaf has no weight.
pub proof fn containers_carry_the_weight(s: SceneView)
    ensures
        match s {
            SceneView::Row { attrs, .. } => weight_spec(s) == attrs.weight,
            SceneView::Column { attrs, .. } => weight_spec(s) == attrs.weight,
            SceneView::Stack { attrs, .. } => weight_spec(s) == attrs.weight,
            SceneView::Leaf(_) => weight_spec(s) == F32(0),
        },
{
}

/// A color with another alpha keeps its red, green and blue.
pub proof fn alpha_changes_nothing_else(c: Color, a: u8, r: Color)
    requires
        call_ensures(with_alpha, (c, a), r),
    ensures
        r.a == a,
        r.r == c.r,
        r.g == c.g,
        r.b == c.b,
{
}

} // verus!
