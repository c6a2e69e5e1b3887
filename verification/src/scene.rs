//! The data-driven render model.
//!
//! A notification type declares a tree of primitives with bindings. [`crate::bind`] validates a
//! source's fields against the type's schema; [`build`] resolves every binding into an immutable
//! [`Scene`] of concrete values. The renderer consumes only [`Scene`]: it never sees type files,
//! field names or bindings. The set of primitives is closed.

use vstd::prelude::*;

pub use crate::binding::{Binding, BindingView, Fields, Value, ValueView};

use crate::bind::BoundNotification;
use crate::binding;
use crate::number;
use crate::number::{F32, Number, NumberView, Readings};
use crate::style::ResolvedStyle;
use crate::template::{LayoutNode, LeafSpec, PrimitiveKind};
use crate::text;

verus! {

/// How children are aligned along a container's cross axis.
#[derive(Clone, Copy, Debug, PartialEq, Eq, Structural)]
pub enum Align {
    Start,
    Center,
    End,
}

impl Default for Align {
    fn default() -> (r: Self)
        ensures
            r == Align::Center,
    {
        Align::Center
    }
}

/// Concrete container geometry, resolved from a type's optional layout attributes.
#[derive(Clone, Copy, Debug, PartialEq, Eq)]
pub struct LayoutAttrs {
    /// `[vertical, horizontal]` padding in px.
    pub padding: [F32; 2],
    pub align: Align,
    pub weight: F32,
}

impl Default for LayoutAttrs {
    fn default() -> (r: Self)
        ensures
            r == default_attrs(),
    {
        LayoutAttrs { padding: [F32(0), F32(0)], align: Align::Center, weight: F32(0x3F80_0000) }
    }
}

/// No padding, centered, weight 1.
pub open spec fn default_attrs() -> LayoutAttrs {
    LayoutAttrs { padding: [F32(0), F32(0)], align: Align::Center, weight: F32(0x3F80_0000) }
}

/// What a [`Primitive::Progress`] bar measures.
#[derive(Clone, Copy, Debug, PartialEq, Eq, Structural)]
pub enum ProgressMode {
    /// A static fraction bound from a field (e.g. download progress).
    Value,
    /// The notification's remaining lifetime: the renderer counts it down from 1 to 0 over the
    /// notification's timeout, independent of any field. Selected by `value = "lifetime"`.
    Lifetime,
}

impl Default for ProgressMode {
    fn default() -> (r: Self)
        ensures
            r == ProgressMode::Value,
    {
        ProgressMode::Value
    }
}

/// The closed set of render primitives.
#[derive(Debug, PartialEq, Eq)]
pub enum Primitive {
    Text { content: String, style: String },
    Marquee { content: String, style: String, speed_px_s: F32 },
    Image { handle: String, radius: F32 },
    Icon { name: String, style: String },
    Progress { value: Number, mode: ProgressMode, style: String },
    Spacer { size: F32 },
}

/// The view of a [`Primitive`].
pub enum PrimitiveView {
    Text { content: Seq<char>, style: Seq<char> },
    Marquee { content: Seq<char>, style: Seq<char>, speed_px_s: F32 },
    Image { handle: Seq<char>, radius: F32 },
    Icon { name: Seq<char>, style: Seq<char> },
    Progress { value: NumberView, mode: ProgressMode, style: Seq<char> },
    Spacer { size: F32 },
}

impl View for Primitive {
    type V = PrimitiveView;

    open spec fn view(&self) -> PrimitiveView {
        match *self {
            Primitive::Text { content, style } => PrimitiveView::Text {
                content: content@,
                style: style@,
            },
            Primitive::Marquee { content, style, speed_px_s } => PrimitiveView::Marquee {
                content: content@,
                style: style@,
                speed_px_s,
            },
            Primitive::Image { handle, radius } => PrimitiveView::Image { handle: handle@, radius },
            Primitive::Icon { name, style } => PrimitiveView::Icon { name: name@, style: style@ },
            Primitive::Progress { value, mode, style } => PrimitiveView::Progress {
                value: value@,
                mode,
                style: style@,
            },
            Primitive::Spacer { size } => PrimitiveView::Spacer { size },
        }
    }
}

impl Clone for Primitive {
    fn clone(&self) -> (r: Self)
        ensures
            r == *self,
    {
        match self {
            Primitive::Text { content, style } => Primitive::Text {
                content: content.clone(),
                style: style.clone(),
            },
            Primitive::Marquee { content, style, speed_px_s } => Primitive::Marquee {
                content: content.clone(),
                style: style.clone(),
                speed_px_s: *speed_px_s,
            },
            Primitive::Image { handle, radius } => Primitive::Image {
                handle: handle.clone(),
                radius: *radius,
            },
            Primitive::Icon { name, style } => Primitive::Icon {
                name: name.clone(),
                style: style.clone(),
            },
            Primitive::Progress { value, mode, style } => Primitive::Progress {
                value: value.clone(),
                mode: *mode,
                style: style.clone(),
            },
            Primitive::Spacer { size } => Primitive::Spacer { size: *size },
        }
    }
}

/// A tree of layout containers with primitives at its leaves. Containers carry resolved
/// [`LayoutAttrs`], so that the renderer has real geometry.
#[derive(Debug)]
pub enum Scene {
    Row { attrs: LayoutAttrs, children: Vec<Scene> },
    Column { attrs: LayoutAttrs, children: Vec<Scene> },
    Stack { attrs: LayoutAttrs, children: Vec<Scene> },
    Leaf(Primitive),
}

/// The view of a [`Scene`].
pub enum SceneView {
    Row { attrs: LayoutAttrs, children: Seq<SceneView> },
    Column { attrs: LayoutAttrs, children: Seq<SceneView> },
    Stack { attrs: LayoutAttrs, children: Seq<SceneView> },
    Leaf(PrimitiveView),
}

impl Scene {
    /// The scene with every text taken by its characters.
    pub open spec fn model(self) -> SceneView
        decreases self,
    {
        match self {
            Scene::Row { attrs, children } => SceneView::Row {
                attrs,
                children: children@.map(
                    |i: int, s: Scene|
                        if 0 <= i < children@.len() {
                            children@[i].model()
                        } else {
                            arbitrary()
                        },
                ),
            },
            Scene::Column { attrs, children } => SceneView::Column {
                attrs,
                children: children@.map(
                    |i: int, s: Scene|
                        if 0 <= i < children@.len() {
                            children@[i].model()
                        } else {
                            arbitrary()
                        },
                ),
            },
            Scene::Stack { attrs, children } => SceneView::Stack {
                attrs,
                children: children@.map(
                    |i: int, s: Scene|
                        if 0 <= i < children@.len() {
                            children@[i].model()
                        } else {
                            arbitrary()
                        },
                ),
            },
            Scene::Leaf(p) => SceneView::Leaf(p@),
        }
    }
}

impl View for Scene {
    type V = SceneView;

    open spec fn view(&self) -> SceneView {
        self.model()
    }
}

/// The views of a list of scenes.
pub open spec fn scene_views(list: Seq<Scene>) -> Seq<SceneView> {
    list.map_values(|s: Scene| s@)
}

fn clone_scenes(list: &Vec<Scene>) -> (r: Vec<Scene>)
    ensures
        scene_views(r@) == scene_views(list@),
    decreases list,
{
    let mut out: Vec<Scene> = Vec::new();
    let mut i: usize = 0;
    while i < list.len()
        invariant
            i <= list@.len(),
            out@.len() == i,
            forall|j: int| 0 <= j < i ==> (#[trigger] out@[j])@ == list@[j]@,
        decreases list@.len() - i,
    {
        assert(decreases_to!(list => list@[i as int]));
        let c = list[i].clone();
        out.push(c);
        i = i + 1;
    }
    assert(scene_views(out@) =~= scene_views(list@));
    out
}

/// A scene's view is its own node with the views of its children.
pub proof fn lemma_model(s: Scene)
    ensures
        s@ == (match s {
            Scene::Row { attrs, children } => SceneView::Row {
                attrs,
                children: scene_views(children@),
            },
            Scene::Column { attrs, children } => SceneView::Column {
                attrs,
                children: scene_views(children@),
            },
            Scene::Stack { attrs, children } => SceneView::Stack {
                attrs,
                children: scene_views(children@),
            },
            Scene::Leaf(p) => SceneView::Leaf(p@),
        }),
{
    match s {
        Scene::Row { attrs, children } => {
            assert(s@->Row_children =~= scene_views(children@));
        },
        Scene::Column { attrs, children } => {
            assert(s@->Column_children =~= scene_views(children@));
        },
        Scene::Stack { attrs, children } => {
            assert(s@->Stack_children =~= scene_views(children@));
        },
        Scene::Leaf(p) => {},
    }
}

impl Clone for Scene {
    fn clone(&self) -> (r: Self)
        ensures
            r@ == self@,
        decreases self,
    {
        let r = match self {
            Scene::Row { attrs, children } => Scene::Row {
                attrs: *attrs,
                children: clone_scenes(children),
            },
            Scene::Column { attrs, children } => Scene::Column {
                attrs: *attrs,
                children: clone_scenes(children),
            },
            Scene::Stack { attrs, children } => Scene::Stack {
                attrs: *attrs,
                children: clone_scenes(children),
            },
            Scene::Leaf(p) => Scene::Leaf(p.clone()),
        };
        proof {
            lemma_model(r);
            lemma_model(*self);
        }
        r
    }
}

// ---- shape -------------------------------------------------------------------------------

/// Whether two containers have the same geometry.
pub open spec fn same_attrs(a: LayoutAttrs, b: LayoutAttrs) -> bool {
    &&& a.padding[0].equals(b.padding[0])
    &&& a.padding[1].equals(b.padding[1])
    &&& a.align == b.align
    &&& a.weight.equals(b.weight)
}

/// Whether two primitives are the same, up to the value of a progress bar.
pub open spec fn primitive_same_shape_spec(a: PrimitiveView, b: PrimitiveView) -> bool {
    match (a, b) {
        (
            PrimitiveView::Text { content: c1, style: s1 },
            PrimitiveView::Text { content: c2, style: s2 },
        ) => c1 == c2 && s1 == s2,
        (
            PrimitiveView::Marquee { content: c1, style: s1, speed_px_s: v1 },
            PrimitiveView::Marquee { content: c2, style: s2, speed_px_s: v2 },
        ) => c1 == c2 && s1 == s2 && v1.equals(v2),
        (
            PrimitiveView::Image { handle: h1, radius: r1 },
            PrimitiveView::Image { handle: h2, radius: r2 },
        ) => h1 == h2 && r1.equals(r2),
        (
            PrimitiveView::Icon { name: n1, style: s1 },
            PrimitiveView::Icon { name: n2, style: s2 },
        ) => n1 == n2 && s1 == s2,
        (
            PrimitiveView::Progress { mode: m1, style: s1, .. },
            PrimitiveView::Progress { mode: m2, style: s2, .. },
        ) => m1 == m2 && s1 == s2,
        (PrimitiveView::Spacer { size: z1 }, PrimitiveView::Spacer { size: z2 }) => z1.equals(z2),
        _ => false,
    }
}

/// Whether two scenes have the same structure and content, up to the values of progress bars.
pub open spec fn same_shape_spec(a: SceneView, b: SceneView) -> bool
    decreases a,
{
    match (a, b) {
        (SceneView::Row { attrs: x, children: c }, SceneView::Row { attrs: y, children: d }) => {
            &&& same_attrs(x, y)
            &&& c.len() == d.len()
            &&& forall|i: int| 0 <= i < c.len() ==> same_shape_spec(#[trigger] c[i], d[i])
        },
        (
            SceneView::Column { attrs: x, children: c },
            SceneView::Column { attrs: y, children: d },
        ) => {
            &&& same_attrs(x, y)
            &&& c.len() == d.len()
            &&& forall|i: int| 0 <= i < c.len() ==> same_shape_spec(#[trigger] c[i], d[i])
        },
        (SceneView::Stack { attrs: x, children: c }, SceneView::Stack { attrs: y, children: d }) => {
            &&& same_attrs(x, y)
            &&& c.len() == d.len()
            &&& forall|i: int| 0 <= i < c.len() ==> same_shape_spec(#[trigger] c[i], d[i])
        },
        (SceneView::Leaf(p), SceneView::Leaf(q)) => primitive_same_shape_spec(p, q),
        _ => false,
    }
}

fn attrs_equal(a: &LayoutAttrs, b: &LayoutAttrs) -> (r: bool)
    ensures
        r == same_attrs(*a, *b),
{
    a.padding[0].same_value(b.padding[0]) && a.padding[1].same_value(b.padding[1]) && a.align
        == b.align && a.weight.same_value(b.weight)
}

/// Two primitives match when at most the value of a progress bar differs.
pub fn primitive_same_shape(a: &Primitive, b: &Primitive) -> (r: bool)
    ensures
        r == primitive_same_shape_spec(a@, b@),
{
    match (a, b) {
        (
            Primitive::Text { content: c1, style: s1 },
            Primitive::Text { content: c2, style: s2 },
        ) => text::same(c1.as_str(), c2.as_str()) && text::same(s1.as_str(), s2.as_str()),
        (
            Primitive::Marquee { content: c1, style: s1, speed_px_s: v1 },
            Primitive::Marquee { content: c2, style: s2, speed_px_s: v2 },
        ) => text::same(c1.as_str(), c2.as_str()) && text::same(s1.as_str(), s2.as_str())
            && v1.same_value(*v2),
        (
            Primitive::Image { handle: h1, radius: r1 },
            Primitive::Image { handle: h2, radius: r2 },
        ) => text::same(h1.as_str(), h2.as_str()) && r1.same_value(*r2),
        (
            Primitive::Icon { name: n1, style: s1 },
            Primitive::Icon { name: n2, style: s2 },
        ) => text::same(n1.as_str(), n2.as_str()) && text::same(s1.as_str(), s2.as_str()),
        (
            Primitive::Progress { mode: m1, style: s1, .. },
            Primitive::Progress { mode: m2, style: s2, .. },
        ) => *m1 == *m2 && text::same(s1.as_str(), s2.as_str()),
        (Primitive::Spacer { size: z1 }, Primitive::Spacer { size: z2 }) => z1.same_value(*z2),
        _ => false,
    }
}

fn lists_same_shape(a: &Vec<Scene>, b: &Vec<Scene>) -> (r: bool)
    ensures
        r == (a@.len() == b@.len() && forall|i: int|
            0 <= i < a@.len() ==> same_shape_spec(
                #[trigger] scene_views(a@)[i],
                scene_views(b@)[i],
            )),
    decreases a,
{
    if a.len() != b.len() {
        return false;
    }
    let mut i: usize = 0;
    while i < a.len()
        invariant
            i <= a@.len(),
            a@.len() == b@.len(),
            forall|j: int|
                0 <= j < i ==> same_shape_spec(
                    #[trigger] scene_views(a@)[j],
                    scene_views(b@)[j],
                ),
        decreases a@.len() - i,
    {
        assert(decreases_to!(a => a@[i as int]));
        if !a[i].same_shape(&b[i]) {
            assert(!same_shape_spec(scene_views(a@)[i as int], scene_views(b@)[i as int]));
            return false;
        }
        i = i + 1;
    }
    true
}

impl Scene {
    /// Whether `self` and `other` have identical structure and content, differing at most in the
    /// value of a progress bar. The renderer then updates a live notification in place: a media
    /// card gives a fresh scene on every position tick, but only the elapsed bar moved. Any other
    /// change is a change of content and calls for a proper morph.
    pub fn same_shape(&self, other: &Scene) -> (r: bool)
        ensures
            r == same_shape_spec(self@, other@),
        decreases self,
    {
        proof {
            lemma_model(*self);
            lemma_model(*other);
        }
        match (self, other) {
            (Scene::Row { attrs: a, children: c }, Scene::Row { attrs: b, children: d }) => {
                let same = lists_same_shape(c, d);
                attrs_equal(a, b) && same
            },
            (Scene::Column { attrs: a, children: c }, Scene::Column { attrs: b, children: d }) => {
                let same = lists_same_shape(c, d);
                attrs_equal(a, b) && same
            },
            (Scene::Stack { attrs: a, children: c }, Scene::Stack { attrs: b, children: d }) => {
                let same = lists_same_shape(c, d);
                attrs_equal(a, b) && same
            },
            (Scene::Leaf(p), Scene::Leaf(q)) => primitive_same_shape(p, q),
            _ => false,
        }
    }
}

// ---- building ----------------------------------------------------------------------------

/// The scroll speed of a marquee that names none: the single-precision pattern of 30 px/s.
pub const DEFAULT_MARQUEE_SPEED: u32 = 0x41F0_0000;

/// The glyph of a playback status, if the text is one.
pub open spec fn enum_icon_spec(value: Seq<char>) -> Option<Seq<char>> {
    if value == "playing"@ {
        Some("\u{f04b}"@)
    } else if value == "paused"@ {
        Some("\u{f04c}"@)
    } else if value == "stopped"@ {
        Some("\u{f04d}"@)
    } else {
        None
    }
}

/// Maps a known status value to a glyph. `None` for unknown values, so that the caller falls back
/// to treating the binding as an icon name.
pub fn enum_icon(value: &str) -> (r: Option<&'static str>)
    ensures
        (match r {
            Some(g) => Some(g@),
            None => None,
        }) == enum_icon_spec(value@),
{
    if text::same(value, "playing") {
        Some("\u{f04b}")
    } else if text::same(value, "paused") {
        Some("\u{f04c}")
    } else if text::same(value, "stopped") {
        Some("\u{f04d}")
    } else {
        None
    }
}

/// The text of an optional binding, empty without one.
pub open spec fn content_spec(
    b: Option<Binding>,
    fields: Map<Seq<char>, ValueView>,
) -> Seq<char> {
    match b {
        Some(x) => binding::resolve_text_spec(x@, fields),
        None => Seq::empty(),
    }
}

/// The binding that a progress bar reads: its value, else its content.
pub open spec fn progress_source(leaf: LeafSpec) -> Option<BindingView> {
    match leaf.value {
        Some(b) => Some(b@),
        None => match leaf.binding {
            Some(b) => Some(b@),
            None => None,
        },
    }
}

/// Whether a progress bar counts down the notification's lifetime.
pub open spec fn is_lifetime(leaf: LeafSpec) -> bool {
    progress_source(leaf) == Some(BindingView::FieldRef("lifetime"@))
}

/// The fraction that a progress bar shows, confined to `[0, 1]`.
pub open spec fn progress_value(
    leaf: LeafSpec,
    fields: Map<Seq<char>, ValueView>,
    table: Readings,
) -> NumberView {
    match progress_source(leaf) {
        Some(b) => number::unit_spec(binding::resolve_float_spec(b, fields, table)),
        None => number::zero(),
    }
}

/// The primitive that a leaf resolves to; none for an image leaf without an image.
pub open spec fn build_leaf_spec(
    leaf: LeafSpec,
    fields: Map<Seq<char>, ValueView>,
    table: Readings,
) -> Option<PrimitiveView> {
    let style = match leaf.style {
        Some(s) => s@,
        None => Seq::empty(),
    };
    let content = content_spec(leaf.binding, fields);
    match leaf.primitive {
        PrimitiveKind::Text => Some(PrimitiveView::Text { content, style }),
        PrimitiveKind::Marquee => Some(
            PrimitiveView::Marquee {
                content,
                style,
                speed_px_s: match leaf.speed_px_s {
                    Some(v) => v,
                    None => F32(DEFAULT_MARQUEE_SPEED),
                },
            },
        ),
        PrimitiveKind::Image => match leaf.binding {
            Some(b) => match binding::resolve_image_spec(b@, fields) {
                Some(handle) => Some(
                    PrimitiveView::Image {
                        handle,
                        radius: match leaf.radius {
                            Some(v) => v,
                            None => F32(0),
                        },
                    },
                ),
                None => None,
            },
            None => None,
        },
        PrimitiveKind::Icon => Some(
            PrimitiveView::Icon {
                name: match enum_icon_spec(content) {
                    Some(g) => g,
                    None => content,
                },
                style,
            },
        ),
        PrimitiveKind::Progress => Some(
            if is_lifetime(leaf) {
                PrimitiveView::Progress {
                    value: number::one(),
                    mode: ProgressMode::Lifetime,
                    style,
                }
            } else {
                PrimitiveView::Progress {
                    value: progress_value(leaf, fields, table),
                    mode: ProgressMode::Value,
                    style,
                }
            },
        ),
        PrimitiveKind::Spacer => Some(
            PrimitiveView::Spacer {
                size: match leaf.size {
                    Some(v) => v,
                    None => F32(0),
                },
            },
        ),
    }
}

/// The scene that a layout node resolves to; none for an image leaf without an image.
pub open spec fn build_node_spec(
    node: LayoutNode,
    fields: Map<Seq<char>, ValueView>,
    table: Readings,
) -> Option<SceneView>
    decreases node,
{
    match node {
        LayoutNode::Row { common, children } => Some(
            SceneView::Row {
                attrs: common.resolved(),
                children: build_children_spec(children@, fields, table),
            },
        ),
        LayoutNode::Column { common, children } => Some(
            SceneView::Column {
                attrs: common.resolved(),
                children: build_children_spec(children@, fields, table),
            },
        ),
        LayoutNode::Stack { common, children } => Some(
            SceneView::Stack {
                attrs: common.resolved(),
                children: build_children_spec(children@, fields, table),
            },
        ),
        LayoutNode::Leaf { leaf } => match build_leaf_spec(leaf, fields, table) {
            Some(p) => Some(SceneView::Leaf(p)),
            None => None,
        },
    }
}

/// The scenes that the nodes of a list resolve to, in order, without those that give none.
pub open spec fn build_children_spec(
    children: Seq<LayoutNode>,
    fields: Map<Seq<char>, ValueView>,
    table: Readings,
) -> Seq<SceneView>
    decreases children,
{
    if children.len() == 0 {
        Seq::empty()
    } else {
        let rest = build_children_spec(
            children.subrange(0, children.len() - 1),
            fields,
            table,
        );
        match build_node_spec(children[children.len() - 1], fields, table) {
            Some(s) => rest.push(s),
            None => rest,
        }
    }
}

/// The scene of a layout: the root's, or an empty row when the root gives none.
pub open spec fn build_spec(
    layout: LayoutNode,
    fields: Map<Seq<char>, ValueView>,
    table: Readings,
) -> SceneView {
    match build_node_spec(layout, fields, table) {
        Some(s) => s,
        None => SceneView::Row { attrs: default_attrs(), children: Seq::empty() },
    }
}

/// Walks a bound notification's layout tree, resolving every binding into concrete primitives. A
/// missing field renders empty; an image leaf without an image is dropped. `style` is there for
/// per-primitive styling; nothing reads it yet.
pub fn build(bound: &BoundNotification, style: &ResolvedStyle, table: &Readings) -> (r: Scene)
    ensures
        r@ == build_spec(bound.template.layout, binding::views(bound.fields@), *table),
{
    match build_node(&bound.template.layout, &bound.fields, table) {
        Some(s) => s,
        None => {
            let empty: Vec<Scene> = Vec::new();
            let r = Scene::Row { attrs: LayoutAttrs::default(), children: empty };
            proof {
                lemma_model(r);
                assert(scene_views(r->Row_children@) =~= Seq::empty());
            }
            r
        },
    }
}

/// Resolves one layout node.
pub fn build_node(node: &LayoutNode, fields: &Fields, table: &Readings) -> (r: Option<Scene>)
    ensures
        (match r {
            Some(s) => Some(s@),
            None => None,
        }) == build_node_spec(*node, binding::views(fields@), *table),
    decreases node,
{
    match node {
        LayoutNode::Row { common, children } => {
            let r = Scene::Row {
                attrs: common.resolve(),
                children: build_children(children, fields, table),
            };
            proof {
                lemma_model(r);
            }
            Some(r)
        },
        LayoutNode::Column { common, children } => {
            let r = Scene::Column {
                attrs: common.resolve(),
                children: build_children(children, fields, table),
            };
            proof {
                lemma_model(r);
            }
            Some(r)
        },
        LayoutNode::Stack { common, children } => {
            let r = Scene::Stack {
                attrs: common.resolve(),
                children: build_children(children, fields, table),
            };
            proof {
                lemma_model(r);
            }
            Some(r)
        },
        LayoutNode::Leaf { leaf } => match build_leaf(leaf, fields, table) {
            Some(p) => Some(Scene::Leaf(p)),
            None => None,
        },
    }
}

/// Resolves the nodes of a list, leaving out those that give nothing.
pub fn build_children(children: &Vec<LayoutNode>, fields: &Fields, table: &Readings) -> (r: Vec<
    Scene,
>)
    ensures
        scene_views(r@) == build_children_spec(children@, binding::views(fields@), *table),
    decreases children,
{
    let mut out: Vec<Scene> = Vec::new();
    let mut i: usize = 0;
    assert(scene_views(out@) =~= Seq::empty());
    assert(children@.subrange(0, 0) =~= Seq::empty());
    while i < children.len()
        invariant
            i <= children@.len(),
            scene_views(out@) == build_children_spec(
                children@.subrange(0, i as int),
                binding::views(fields@),
                *table,
            ),
        decreases children@.len() - i,
    {
        let ghost before = scene_views(out@);
        assert(decreases_to!(children => children@[i as int]));
        match build_node(&children[i], fields, table) {
            Some(s) => {
                out.push(s);
                assert(scene_views(out@) =~= before.push(s@));
            },
            None => {},
        }
        i = i + 1;
        proof {
            let now = children@.subrange(0, i as int);
            assert(now.subrange(0, now.len() - 1) =~= children@.subrange(0, i - 1));
            assert(now[now.len() - 1] == children@[i - 1]);
        }
    }
    assert(children@.subrange(0, i as int) =~= children@);
    out
}

fn leaf_content(b: &Option<Binding>, fields: &Fields) -> (r: String)
    ensures
        r@ == content_spec(*b, binding::views(fields@)),
{
    match b {
        Some(x) => x.resolve_text(fields),
        None => {
            let s = String::new();
            assert(s@ =~= Seq::empty());
            s
        },
    }
}

/// Resolves one leaf; `None` for an image leaf without an image.
pub fn build_leaf(leaf: &LeafSpec, fields: &Fields, table: &Readings) -> (r: Option<Primitive>)
    ensures
        (match r {
            Some(p) => Some(p@),
            None => None,
        }) == build_leaf_spec(*leaf, binding::views(fields@), *table),
{
    let style: String = match &leaf.style {
        Some(s) => s.clone(),
        None => {
            let s = String::new();
            assert(s@ =~= Seq::empty());
            s
        },
    };
    match leaf.primitive {
        PrimitiveKind::Text => {
            let content = leaf_content(&leaf.binding, fields);
            Some(Primitive::Text { content, style })
        },
        PrimitiveKind::Marquee => {
            let content = leaf_content(&leaf.binding, fields);
            let speed_px_s = match leaf.speed_px_s {
                Some(v) => v,
                None => F32(DEFAULT_MARQUEE_SPEED),
            };
            Some(Primitive::Marquee { content, style, speed_px_s })
        },
        PrimitiveKind::Image => {
            // Dropped entirely when the notification has no image for it.
            let radius = match leaf.radius {
                Some(v) => v,
                None => F32(0),
            };
            match &leaf.binding {
                Some(b) => match b.resolve_image(fields) {
                    Some(handle) => Some(Primitive::Image { handle, radius }),
                    None => None,
                },
                None => None,
            }
        },
        PrimitiveKind::Icon => {
            let raw = leaf_content(&leaf.binding, fields);
            let name = match enum_icon(raw.as_str()) {
                Some(g) => g.to_string(),
                None => raw,
            };
            Some(Primitive::Icon { name, style })
        },
        PrimitiveKind::Progress => {
            let src: Option<&Binding> = match &leaf.value {
                Some(b) => Some(b),
                None => match &leaf.binding {
                    Some(b) => Some(b),
                    None => None,
                },
            };
            match src {
                Some(b) => {
                    if let Binding::FieldRef(n) = b {
                        if text::same(n.as_str(), "lifetime") {
                            return Some(
                                Primitive::Progress {
                                    value: Number::one(),
                                    mode: ProgressMode::Lifetime,
                                    style,
                                },
                            );
                        }
                    }
                    let value = b.resolve_float(fields, table).clamp_unit();
                    Some(Primitive::Progress { value, mode: ProgressMode::Value, style })
                },
                None => Some(
                    Primitive::Progress {
                        value: Number::zero(),
                        mode: ProgressMode::Value,
                        style,
                    },
                ),
            }
        },
        PrimitiveKind::Spacer => {
            let size = match leaf.size {
                Some(v) => v,
                None => F32(0),
            };
            Some(Primitive::Spacer { size })
        },
    }
}

/// Whether building a node looks up what the text `t` reads as: `t` is what a progress bar's
/// source resolves to.
pub open spec fn build_reads(
    node: LayoutNode,
    fields: Map<Seq<char>, ValueView>,
    t: Seq<char>,
) -> bool
    decreases node,
{
    match node {
        LayoutNode::Row { children, .. } => exists|i: int|
            0 <= i < children@.len() && build_reads(#[trigger] children@[i], fields, t),
        LayoutNode::Column { children, .. } => exists|i: int|
            0 <= i < children@.len() && build_reads(#[trigger] children@[i], fields, t),
        LayoutNode::Stack { children, .. } => exists|i: int|
            0 <= i < children@.len() && build_reads(#[trigger] children@[i], fields, t),
        LayoutNode::Leaf { leaf } => leaf_reads(leaf, fields, t),
    }
}

/// Whether building a leaf looks up what the text `t` reads as.
pub open spec fn leaf_reads(
    leaf: LeafSpec,
    fields: Map<Seq<char>, ValueView>,
    t: Seq<char>,
) -> bool {
    &&& leaf.primitive == PrimitiveKind::Progress
    &&& !is_lifetime(leaf)
    &&& progress_source(leaf) is Some
    &&& binding::float_text_spec(progress_source(leaf)->0, fields) == Some(t)
}

/// The texts whose readings [`build`] looks up.
pub fn build_texts(layout: &LayoutNode, fields: &Fields) -> (r: Vec<String>)
    ensures
        forall|t: Seq<char>| #[trigger]
            text::texts(r@).contains(t) <==> build_reads(*layout, binding::views(fields@), t),
{
    let mut out: Vec<String> = Vec::new();
    assert(text::texts(out@) =~= Seq::empty());
    collect_texts(layout, fields, &mut out);
    out
}

fn collect_texts(node: &LayoutNode, fields: &Fields, out: &mut Vec<String>)
    ensures
        forall|t: Seq<char>| #[trigger]
            text::texts(final(out)@).contains(t) <==> text::texts(old(out)@).contains(t)
                || build_reads(*node, binding::views(fields@), t),
    decreases node,
{
    match node {
        LayoutNode::Row { children, .. } => collect_children(children, fields, out),
        LayoutNode::Column { children, .. } => collect_children(children, fields, out),
        LayoutNode::Stack { children, .. } => collect_children(children, fields, out),
        LayoutNode::Leaf { leaf } => collect_leaf(leaf, fields, out),
    }
}

fn collect_children(children: &Vec<LayoutNode>, fields: &Fields, out: &mut Vec<String>)
    ensures
        forall|t: Seq<char>| #[trigger]
            text::texts(final(out)@).contains(t) <==> text::texts(old(out)@).contains(t) || exists|
                i: int,
            |
                0 <= i < children@.len() && build_reads(
                    #[trigger] children@[i],
                    binding::views(fields@),
                    t,
                ),
    decreases children,
{
    let ghost given = binding::views(fields@);
    let ghost start = text::texts(out@);
    let mut i: usize = 0;
    while i < children.len()
        invariant
            i <= children@.len(),
            given == binding::views(fields@),
            forall|t: Seq<char>| #[trigger]
                text::texts(out@).contains(t) <==> start.contains(t) || exists|j: int|
                    0 <= j < i && build_reads(#[trigger] children@[j], given, t),
        decreases children@.len() - i,
    {
        let ghost before = text::texts(out@);
        assert(decreases_to!(children => children@[i as int]));
        collect_texts(&children[i], fields, out);
        proof {
            let after = text::texts(out@);
            assert forall|t: Seq<char>| #[trigger] after.contains(t) <==> start.contains(t)
                || exists|j: int| 0 <= j < i + 1 && build_reads(
                #[trigger] children@[j],
                given,
                t,
            ) by {
                if after.contains(t) && !start.contains(t) {
                    if before.contains(t) {
                        let j = choose|j: int|
                            0 <= j < i && build_reads(#[trigger] children@[j], given, t);
                        assert(build_reads(children@[j], given, t));
                    } else {
                        assert(build_reads(children@[i as int], given, t));
                    }
                }
                if exists|j: int| 0 <= j < i + 1 && build_reads(#[trigger] children@[j], given, t) {
                    let j = choose|j: int|
                        0 <= j < i + 1 && build_reads(#[trigger] children@[j], given, t);
                    if j < i {
                        assert(before.contains(t));
                    }
                }
                if start.contains(t) {
                    assert(before.contains(t));
                }
            }
        }
        i = i + 1;
    }
}

fn collect_leaf(leaf: &LeafSpec, fields: &Fields, out: &mut Vec<String>)
    ensures
        forall|t: Seq<char>| #[trigger]
            text::texts(final(out)@).contains(t) <==> text::texts(old(out)@).contains(t)
                || leaf_reads(*leaf, binding::views(fields@), t),
{
    let ghost start = text::texts(out@);
    if leaf.primitive != PrimitiveKind::Progress {
        return;
    }
    let src: Option<&Binding> = match &leaf.value {
        Some(b) => Some(b),
        None => match &leaf.binding {
            Some(b) => Some(b),
            None => None,
        },
    };
    if let Some(b) = src {
        if let Binding::FieldRef(n) = b {
            if text::same(n.as_str(), "lifetime") {
                return;
            }
        }
        if let Some(s) = b.float_text(fields) {
            let ghost added = s@;
            out.push(s);
            proof {
                let after = text::texts(out@);
                assert(after =~= start.push(added));
                assert forall|t: Seq<char>| #[trigger] after.contains(t) <==> start.contains(t) || t
                    == added by {
                    if start.contains(t) {
                        let i = choose|i: int| 0 <= i < start.len() && start[i] == t;
                        assert(after[i] == t);
                    }
                    if t == added {
                        assert(after[start.len() as int] == t);
                    }
                }
            }
        }
    }
}

/// Building depends on the table only through what it looks up.
pub proof fn building_depends_on_its_texts(
    layout: LayoutNode,
    fields: Map<Seq<char>, ValueView>,
    a: Readings,
    b: Readings,
)
    requires
        forall|t: Seq<char>| #[trigger]
            build_reads(layout, fields, t) ==> number::reading(a, t) == number::reading(b, t),
    ensures
        build_spec(layout, fields, a) == build_spec(layout, fields, b),
{
    lemma_node_readings(layout, fields, a, b);
}

proof fn lemma_node_readings(
    node: LayoutNode,
    fields: Map<Seq<char>, ValueView>,
    a: Readings,
    b: Readings,
)
    requires
        forall|t: Seq<char>| #[trigger]
            build_reads(node, fields, t) ==> number::reading(a, t) == number::reading(b, t),
    ensures
        build_node_spec(node, fields, a) == build_node_spec(node, fields, b),
    decreases node,
{
    match node {
        LayoutNode::Row { children, .. } => {
            assert forall|i: int, t: Seq<char>|
                0 <= i < children@.len() && #[trigger] build_reads(
                    children@[i],
                    fields,
                    t,
                ) implies number::reading(a, t) == number::reading(b, t) by {
                assert(build_reads(node, fields, t));
            }
            lemma_children_readings(children@, fields, a, b);
        },
        LayoutNode::Column { children, .. } => {
            assert forall|i: int, t: Seq<char>|
                0 <= i < children@.len() && #[trigger] build_reads(
                    children@[i],
                    fields,
                    t,
                ) implies number::reading(a, t) == number::reading(b, t) by {
                assert(build_reads(node, fields, t));
            }
            lemma_children_readings(children@, fields, a, b);
        },
        LayoutNode::Stack { children, .. } => {
            assert forall|i: int, t: Seq<char>|
                0 <= i < children@.len() && #[trigger] build_reads(
                    children@[i],
                    fields,
                    t,
                ) implies number::reading(a, t) == number::reading(b, t) by {
                assert(build_reads(node, fields, t));
            }
            lemma_children_readings(children@, fields, a, b);
        },
        LayoutNode::Leaf { leaf } => {
            assert forall|t: Seq<char>| #[trigger] leaf_reads(leaf, fields, t) implies
                number::reading(a, t) == number::reading(b, t) by {
                assert(build_reads(node, fields, t));
            }
            if leaf.primitive == PrimitiveKind::Progress && !is_lifetime(leaf) {
                match progress_source(leaf) {
                    Some(src) => match binding::float_text_spec(src, fields) {
                        Some(t) => {
                            assert(leaf_reads(leaf, fields, t));
                        },
                        None => {},
                    },
                    None => {},
                }
            }
        },
    }
}

proof fn lemma_children_readings(
    children: Seq<LayoutNode>,
    fields: Map<Seq<char>, ValueView>,
    a: Readings,
    b: Readings,
)
    requires
        forall|i: int, t: Seq<char>|
            0 <= i < children.len() && #[trigger] build_reads(children[i], fields, t)
                ==> number::reading(a, t) == number::reading(b, t),
    ensures
        build_children_spec(children, fields, a) == build_children_spec(children, fields, b),
    decreases children,
{
    if children.len() > 0 {
        let rest = children.subrange(0, children.len() - 1);
        let last = children.len() - 1;
        assert forall|i: int, t: Seq<char>|
            0 <= i < rest.len() && #[trigger] build_reads(rest[i], fields, t) implies
            number::reading(a, t) == number::reading(b, t) by {
            assert(build_reads(children[i], fields, t));
        }
        lemma_children_readings(rest, fields, a, b);
        assert forall|t: Seq<char>| #[trigger] build_reads(children[last], fields, t) implies
            number::reading(a, t) == number::reading(b, t) by {
        }
        lemma_node_readings(children[last], fields, a, b);
    }
}

// ---- laws of shape -----------------------------------------------------------------------

/// Whether no geometry value of a primitive is a NaN.
pub open spec fn numeric_primitive(p: PrimitiveView) -> bool {
    match p {
        PrimitiveView::Marquee { speed_px_s, .. } => !speed_px_s.is_nan(),
        PrimitiveView::Image { radius, .. } => !radius.is_nan(),
        PrimitiveView::Spacer { size } => !size.is_nan(),
        _ => true,
    }
}

/// Whether no geometry value of a container is a NaN.
pub open spec fn numeric_attrs(a: LayoutAttrs) -> bool {
    !a.padding[0].is_nan() && !a.padding[1].is_nan() && !a.weight.is_nan()
}

/// Whether no geometry value of a scene is a NaN.
pub open spec fn numeric_scene(s: SceneView) -> bool
    decreases s,
{
    match s {
        SceneView::Row { attrs, children } => {
            &&& numeric_attrs(attrs)
            &&& forall|i: int| 0 <= i < children.len() ==> numeric_scene(#[trigger] children[i])
        },
        SceneView::Column { attrs, children } => {
            &&& numeric_attrs(attrs)
            &&& forall|i: int| 0 <= i < children.len() ==> numeric_scene(#[trigger] children[i])
        },
        SceneView::Stack { attrs, children } => {
            &&& numeric_attrs(attrs)
            &&& forall|i: int| 0 <= i < children.len() ==> numeric_scene(#[trigger] children[i])
        },
        SceneView::Leaf(p) => numeric_primitive(p),
    }
}

/// A geometry value with a negative zero written as zero.
pub open spec fn unsigned_zero(v: F32) -> F32 {
    if v.0 == number::F32_SIGN {
        F32(0)
    } else {
        v
    }
}

/// The geometry of a container with every negative zero written as zero.
pub open spec fn normal_attrs(a: LayoutAttrs) -> LayoutAttrs {
    LayoutAttrs {
        padding: [unsigned_zero(a.padding[0]), unsigned_zero(a.padding[1])],
        align: a.align,
        weight: unsigned_zero(a.weight),
    }
}

/// A primitive with the value of a progress bar set to 0, and every negative zero of its geometry
/// written as zero.
pub open spec fn normal_primitive(p: PrimitiveView) -> PrimitiveView {
    match p {
        PrimitiveView::Progress { mode, style, .. } => PrimitiveView::Progress {
            value: number::zero(),
            mode,
            style,
        },
        PrimitiveView::Marquee { content, style, speed_px_s } => PrimitiveView::Marquee {
            content,
            style,
            speed_px_s: unsigned_zero(speed_px_s),
        },
        PrimitiveView::Image { handle, radius } => PrimitiveView::Image {
            handle,
            radius: unsigned_zero(radius),
        },
        PrimitiveView::Spacer { size } => PrimitiveView::Spacer { size: unsigned_zero(size) },
        _ => p,
    }
}

/// The normal forms of some scenes.
pub open spec fn normal_scenes(list: Seq<SceneView>) -> Seq<SceneView>
    decreases list,
{
    list.map(
        |i: int, c: SceneView|
            if 0 <= i < list.len() {
                normal_scene(list[i])
            } else {
                arbitrary()
            },
    )
}

/// A scene with the value of every progress bar set to 0, and every negative zero of its geometry
/// written as zero.
pub open spec fn normal_scene(s: SceneView) -> SceneView
    decreases s,
{
    match s {
        SceneView::Row { attrs, children } => SceneView::Row {
            attrs: normal_attrs(attrs),
            children: normal_scenes(children),
        },
        SceneView::Column { attrs, children } => SceneView::Column {
            attrs: normal_attrs(attrs),
            children: normal_scenes(children),
        },
        SceneView::Stack { attrs, children } => SceneView::Stack {
            attrs: normal_attrs(attrs),
            children: normal_scenes(children),
        },
        SceneView::Leaf(p) => SceneView::Leaf(normal_primitive(p)),
    }
}

proof fn lemma_numeric_attrs(a: LayoutAttrs, b: LayoutAttrs)
    requires
        numeric_attrs(a),
        numeric_attrs(b),
    ensures
        same_attrs(a, b) <==> normal_attrs(a) == normal_attrs(b),
{
    let x = normal_attrs(a);
    let y = normal_attrs(b);
    assert(x.padding[0] == unsigned_zero(a.padding[0]));
    assert(x.padding[1] == unsigned_zero(a.padding[1]));
    assert(y.padding[0] == unsigned_zero(b.padding[0]));
    assert(y.padding[1] == unsigned_zero(b.padding[1]));
    if same_attrs(a, b) {
        assert(x.padding@ =~= y.padding@);
        assert(x.padding =~= y.padding);
    }
}

/// Two scenes without a NaN have the same shape exactly when they are equal but for the values of
/// progress bars and the signs of zeros.
pub proof fn same_shape_ignores_only_progress_values(a: SceneView, b: SceneView)
    requires
        numeric_scene(a),
        numeric_scene(b),
    ensures
        same_shape_spec(a, b) <==> normal_scene(a) == normal_scene(b),
    decreases a,
{
    match (a, b) {
        (SceneView::Row { attrs: x, children: c }, SceneView::Row { attrs: y, children: d }) => {
            lemma_numeric_attrs(x, y);
            lemma_same_children(
                c,
                d,
                normal_scene(a)->Row_children,
                normal_scene(b)->Row_children,
            );
        },
        (
            SceneView::Column { attrs: x, children: c },
            SceneView::Column { attrs: y, children: d },
        ) => {
            lemma_numeric_attrs(x, y);
            lemma_same_children(
                c,
                d,
                normal_scene(a)->Column_children,
                normal_scene(b)->Column_children,
            );
        },
        (SceneView::Stack { attrs: x, children: c }, SceneView::Stack { attrs: y, children: d }) => {
            lemma_numeric_attrs(x, y);
            lemma_same_children(
                c,
                d,
                normal_scene(a)->Stack_children,
                normal_scene(b)->Stack_children,
            );
        },
        _ => {},
    }
}

proof fn lemma_same_children(
    c: Seq<SceneView>,
    d: Seq<SceneView>,
    e: Seq<SceneView>,
    f: Seq<SceneView>,
)
    requires
        forall|i: int| 0 <= i < c.len() ==> numeric_scene(#[trigger] c[i]),
        forall|i: int| 0 <= i < d.len() ==> numeric_scene(#[trigger] d[i]),
        e.len() == c.len(),
        f.len() == d.len(),
        forall|i: int| 0 <= i < c.len() ==> #[trigger] e[i] == normal_scene(c[i]),
        forall|i: int| 0 <= i < d.len() ==> #[trigger] f[i] == normal_scene(d[i]),
    ensures
        (c.len() == d.len() && forall|i: int|
            0 <= i < c.len() ==> same_shape_spec(#[trigger] c[i], d[i])) <==> e == f,
    decreases c,
{
    if c.len() == d.len() {
        assert forall|i: int| 0 <= i < c.len() implies (same_shape_spec(#[trigger] c[i], d[i])
            <==> e[i] == f[i]) by {
            same_shape_ignores_only_progress_values(c[i], d[i]);
        }
        if forall|i: int| 0 <= i < c.len() ==> same_shape_spec(#[trigger] c[i], d[i]) {
            assert forall|i: int| 0 <= i < e.len() implies e[i] == f[i] by {
                assert(same_shape_spec(c[i], d[i]));
            }
            assert(e =~= f);
        }
        if e == f {
            assert forall|i: int| 0 <= i < c.len() implies same_shape_spec(#[trigger] c[i], d[i]) by {
                assert(e[i] == f[i]);
            }
        }
    }
}

/// Having the same shape does not depend on the order of the two scenes.
pub proof fn same_shape_is_symmetric(a: SceneView, b: SceneView)
    ensures
        same_shape_spec(a, b) == same_shape_spec(b, a),
    decreases a,
{
    match (a, b) {
        (SceneView::Row { children: c, .. }, SceneView::Row { children: d, .. }) => {
            lemma_symmetric_children(c, d);
        },
        (SceneView::Column { children: c, .. }, SceneView::Column { children: d, .. }) => {
            lemma_symmetric_children(c, d);
        },
        (SceneView::Stack { children: c, .. }, SceneView::Stack { children: d, .. }) => {
            lemma_symmetric_children(c, d);
        },
        _ => {},
    }
}

proof fn lemma_symmetric_children(c: Seq<SceneView>, d: Seq<SceneView>)
    ensures
        c.len() == d.len() ==> ((forall|i: int|
            0 <= i < c.len() ==> same_shape_spec(#[trigger] c[i], d[i])) <==> (forall|i: int|
            0 <= i < d.len() ==> same_shape_spec(#[trigger] d[i], c[i]))),
    decreases c,
{
    if c.len() == d.len() {
        assert forall|i: int| 0 <= i < c.len() implies same_shape_spec(#[trigger] c[i], d[i])
            == same_shape_spec(d[i], c[i]) by {
            same_shape_is_symmetric(c[i], d[i]);
        }
        if forall|i: int| 0 <= i < d.len() ==> same_shape_spec(#[trigger] d[i], c[i]) {
            assert forall|i: int| 0 <= i < c.len() implies same_shape_spec(#[trigger] c[i], d[i]) by {
                assert(same_shape_spec(d[i], c[i]));
            }
        }
        if forall|i: int| 0 <= i < c.len() ==> same_shape_spec(#[trigger] c[i], d[i]) {
            assert forall|i: int| 0 <= i < d.len() implies same_shape_spec(#[trigger] d[i], c[i]) by {
                assert(same_shape_spec(c[i], d[i]));
            }
        }
    }
}

// ---- laws of building --------------------------------------------------------------------

/// Building lists one after the other is building them as one list.
pub proof fn lists_build_piece_by_piece(
    a: Seq<LayoutNode>,
    b: Seq<LayoutNode>,
    fields: Map<Seq<char>, ValueView>,
    table: Readings,
)
    ensures
        build_children_spec(a + b, fields, table) == build_children_spec(a, fields, table)
            + build_children_spec(b, fields, table),
    decreases b.len(),
{
    if b.len() == 0 {
        assert(a + b =~= a);
        assert(build_children_spec(a, fields, table) + build_children_spec(b, fields, table)
            =~= build_children_spec(a, fields, table));
    } else {
        let front = b.subrange(0, b.len() - 1);
        let all = a + b;
        lists_build_piece_by_piece(a, front, fields, table);
        assert(all.subrange(0, all.len() - 1) =~= a + front);
        assert(all[all.len() - 1] == b[b.len() - 1]);
        assert(build_children_spec(all, fields, table) =~= build_children_spec(a, fields, table)
            + build_children_spec(b, fields, table));
    }
}

/// A list of one node builds to that node's scene, and to nothing when it gives none.
pub proof fn single_nodes_build_to_themselves(
    node: LayoutNode,
    fields: Map<Seq<char>, ValueView>,
    table: Readings,
)
    ensures
        build_children_spec(seq![node], fields, table) == (match build_node_spec(
            node,
            fields,
            table,
        ) {
            Some(s) => seq![s],
            None => Seq::empty(),
        }),
{
    assert(seq![node].subrange(0, 0) =~= Seq::empty());
    assert(build_children_spec(Seq::empty(), fields, table) =~= Seq::empty());
    let built = build_children_spec(seq![node], fields, table);
    match build_node_spec(node, fields, table) {
        Some(s) => {
            assert(built =~= seq![s]);
        },
        None => {
            assert(built =~= Seq::empty());
        },
    }
}

/// The children of a container stand in the order of the layout: a child that gives a scene stands
/// right behind what the children declared before it give.
pub proof fn children_stand_in_the_order_of_the_layout(
    children: Seq<LayoutNode>,
    fields: Map<Seq<char>, ValueView>,
    table: Readings,
    i: int,
)
    requires
        0 <= i < children.len(),
        build_node_spec(children[i], fields, table) is Some,
    ensures
        ({
            let all = build_children_spec(children, fields, table);
            let before = build_children_spec(children.subrange(0, i), fields, table);
            let after = build_children_spec(
                children.subrange(i + 1, children.len() as int),
                fields,
                table,
            );
            &&& all == before + seq![build_node_spec(children[i], fields, table)->0] + after
            &&& all[before.len() as int] == build_node_spec(children[i], fields, table)->0
        }),
{
    let a = children.subrange(0, i);
    let c = children.subrange(i + 1, children.len() as int);
    let n = seq![children[i]];
    assert(children =~= (a + n) + c);
    lists_build_piece_by_piece(a + n, c, fields, table);
    lists_build_piece_by_piece(a, n, fields, table);
    single_nodes_build_to_themselves(children[i], fields, table);
    assert(build_children_spec(children, fields, table) =~= build_children_spec(a, fields, table)
        + seq![build_node_spec(children[i], fields, table)->0] + build_children_spec(
        c,
        fields,
        table,
    ));
}

/// Of two children that both give a scene, the one declared first comes first.
pub proof fn earlier_children_come_first(
    children: Seq<LayoutNode>,
    fields: Map<Seq<char>, ValueView>,
    table: Readings,
    i: int,
    j: int,
)
    requires
        0 <= i < j < children.len(),
        build_node_spec(children[i], fields, table) is Some,
        build_node_spec(children[j], fields, table) is Some,
    ensures
        ({
            let all = build_children_spec(children, fields, table);
            exists|p: int, q: int|
                {
                    &&& 0 <= p < q < all.len()
                    &&& #[trigger] all[p] == build_node_spec(children[i], fields, table)->0
                    &&& #[trigger] all[q] == build_node_spec(children[j], fields, table)->0
                }
        }),
{
    let all = build_children_spec(children, fields, table);
    let front = children.subrange(0, j);
    children_stand_in_the_order_of_the_layout(children, fields, table, j);
    assert(front[i] == children[i]);
    children_stand_in_the_order_of_the_layout(front, fields, table, i);
    let built = build_children_spec(front, fields, table);
    let p = build_children_spec(front.subrange(0, i), fields, table).len() as int;
    let q = built.len() as int;
    assert(all[p] == built[p]);
    assert(all[q] == build_node_spec(children[j], fields, table)->0);
}

/// Where every child gives a scene, the container has as many children as the layout, each in its
/// place.
pub proof fn whole_lists_keep_every_place(
    children: Seq<LayoutNode>,
    fields: Map<Seq<char>, ValueView>,
    table: Readings,
)
    requires
        forall|i: int|
            0 <= i < children.len() ==> build_node_spec(
                #[trigger] children[i],
                fields,
                table,
            ) is Some,
    ensures
        ({
            let all = build_children_spec(children, fields, table);
            &&& all.len() == children.len()
            &&& forall|i: int|
                0 <= i < children.len() ==> #[trigger] all[i] == build_node_spec(
                    children[i],
                    fields,
                    table,
                )->0
        }),
    decreases children.len(),
{
    if children.len() > 0 {
        let last = children.len() - 1;
        let front = children.subrange(0, last);
        assert forall|i: int| 0 <= i < front.len() implies build_node_spec(
            #[trigger] front[i],
            fields,
            table,
        ) is Some by {
            assert(front[i] == children[i]);
        }
        whole_lists_keep_every_place(front, fields, table);
        let built = build_children_spec(front, fields, table);
        let all = build_children_spec(children, fields, table);
        assert(build_node_spec(children[last], fields, table) is Some);
        assert forall|i: int| 0 <= i < children.len() implies #[trigger] all[i] == build_node_spec(
            children[i],
            fields,
            table,
        )->0 by {
            if i < last {
                assert(all[i] == built[i]);
                assert(front[i] == children[i]);
            }
        }
    }
}

/// Whether a container's geometry is what its layout node sets: no padding, centered and of weight
/// 1 where nothing is set.
pub open spec fn has_geometry(attrs: LayoutAttrs, common: crate::template::ContainerCommon) -> bool {
    &&& common.padding is Some ==> attrs.padding == common.padding->0
    &&& common.padding is None ==> attrs.padding[0] == F32(0) && attrs.padding[1] == F32(0)
    &&& common.align is Some ==> attrs.align == common.align->0
    &&& common.align is None ==> attrs.align == Align::Center
    &&& common.weight is Some ==> attrs.weight == common.weight->0
    &&& common.weight is None ==> attrs.weight == F32(0x3F80_0000)
}

/// A container builds to one of the same kind and geometry, around what its children give.
pub proof fn containers_keep_their_kind(
    common: crate::template::ContainerCommon,
    children: Vec<LayoutNode>,
    fields: Map<Seq<char>, ValueView>,
    table: Readings,
)
    ensures
        ({
            let built = build_children_spec(children@, fields, table);
            let row = build_node_spec(LayoutNode::Row { common, children }, fields, table);
            let column = build_node_spec(LayoutNode::Column { common, children }, fields, table);
            let stack = build_node_spec(LayoutNode::Stack { common, children }, fields, table);
            &&& row is Some && row->0 is Row
            &&& has_geometry(row->0->Row_attrs, common) && row->0->Row_children == built
            &&& column is Some && column->0 is Column
            &&& has_geometry(column->0->Column_attrs, common) && column->0->Column_children == built
            &&& stack is Some && stack->0 is Stack
            &&& has_geometry(stack->0->Stack_attrs, common) && stack->0->Stack_children == built
        }),
{
}

/// The scene of a layout is that of its root; a root that gives nothing leaves an empty row.
pub proof fn the_root_is_the_scene(
    layout: LayoutNode,
    fields: Map<Seq<char>, ValueView>,
    table: Readings,
)
    ensures
        ({
            let r = build_spec(layout, fields, table);
            match build_node_spec(layout, fields, table) {
                Some(s) => r == s,
                None => r is Row && r->Row_children.len() == 0,
            }
        }),
{
}

/// Whether `t` is what a leaf's content binding comes to, empty without one.
pub open spec fn has_content(
    leaf: LeafSpec,
    fields: Map<Seq<char>, ValueView>,
    t: Seq<char>,
) -> bool {
    &&& leaf.binding is Some ==> t == binding::resolve_text_spec(leaf.binding->0@, fields)
    &&& leaf.binding is None ==> t.len() == 0
}

/// Whether `t` is a leaf's named style, empty without one.
pub open spec fn has_style(leaf: LeafSpec, t: Seq<char>) -> bool {
    &&& leaf.style is Some ==> t == leaf.style->0@
    &&& leaf.style is None ==> t.len() == 0
}

/// A text leaf shows its content in its style; a marquee does too, at its own speed or 30 px/s.
pub proof fn text_leaves_show_their_content(
    leaf: LeafSpec,
    fields: Map<Seq<char>, ValueView>,
    table: Readings,
)
    ensures
        ({
            let r = build_node_spec(LayoutNode::Leaf { leaf }, fields, table);
            &&& leaf.primitive == PrimitiveKind::Text ==> {
                &&& r is Some && r->0 is Leaf && r->0->Leaf_0 is Text
                &&& has_content(leaf, fields, r->0->Leaf_0->Text_content)
                &&& has_style(leaf, r->0->Leaf_0->Text_style)
            }
            &&& leaf.primitive == PrimitiveKind::Marquee ==> {
                let m = r->0->Leaf_0;
                &&& r is Some && r->0 is Leaf && m is Marquee
                &&& has_content(leaf, fields, m->Marquee_content)
                &&& has_style(leaf, m->Marquee_style)
                &&& leaf.speed_px_s is Some ==> m->speed_px_s == leaf.speed_px_s->0
                &&& leaf.speed_px_s is None ==> m->speed_px_s == F32(0x41F0_0000)
            }
        }),
{
}

/// An image leaf shows the image that its binding comes to, with its own radius or none. Without an
/// image it is dropped.
pub proof fn image_leaves_show_their_image(
    leaf: LeafSpec,
    fields: Map<Seq<char>, ValueView>,
    table: Readings,
)
    requires
        leaf.primitive == PrimitiveKind::Image,
    ensures
        ({
            let r = build_node_spec(LayoutNode::Leaf { leaf }, fields, table);
            let image = binding::resolve_image_spec(leaf.binding->0@, fields);
            &&& r is Some <==> leaf.binding is Some && image is Some
            &&& r is Some ==> {
                &&& r->0 is Leaf && r->0->Leaf_0 is Image
                &&& r->0->Leaf_0->handle == image->0
                &&& leaf.radius is Some ==> r->0->Leaf_0->radius == leaf.radius->0
                &&& leaf.radius is None ==> r->0->Leaf_0->radius == F32(0)
            }
        }),
{
}

/// An icon leaf shows the glyph of a playback status that its content names, and else the icon that
/// its content names.
pub proof fn icon_leaves_show_their_icon(
    leaf: LeafSpec,
    fields: Map<Seq<char>, ValueView>,
    table: Readings,
    content: Seq<char>,
)
    requires
        leaf.primitive == PrimitiveKind::Icon,
        has_content(leaf, fields, content),
    ensures
        ({
            let r = build_node_spec(LayoutNode::Leaf { leaf }, fields, table);
            let name = r->0->Leaf_0->name;
            &&& r is Some && r->0 is Leaf && r->0->Leaf_0 is Icon
            &&& has_style(leaf, r->0->Leaf_0->Icon_style)
            &&& content == "playing"@ ==> name == "\u{f04b}"@
            &&& content == "paused"@ ==> name == "\u{f04c}"@
            &&& content == "stopped"@ ==> name == "\u{f04d}"@
            &&& content != "playing"@ && content != "paused"@ && content != "stopped"@ ==> name
                == content
        }),
{
    assert(content =~= content_spec(leaf.binding, fields));
    reveal_strlit("playing");
    reveal_strlit("paused");
    reveal_strlit("stopped");
    assert("playing"@.len() == 7 && "paused"@.len() == 6 && "stopped"@.len() == 7);
    assert("playing"@[0] == 'p' && "stopped"@[0] == 's');
}

/// Whether `r` is `n` confined to the fractions from 0 to 1.
pub open spec fn is_fraction_of(n: NumberView, r: NumberView) -> bool {
    let low = number::f64_less(n.bits, 0);
    let high = number::f64_less(0x3FF0_0000_0000_0000, n.bits);
    &&& low ==> r.bits == 0
    &&& high ==> r.bits == 0x3FF0_0000_0000_0000
    &&& !low && !high ==> r == n
}

/// A progress leaf measures its value, or its content without one: a reference to `lifetime` counts
/// the notification's own time down from 1, anything else is the number that it comes to, confined
/// to the fractions from 0 to 1, and nothing at all is 0.
pub proof fn progress_leaves_measure_their_value(
    leaf: LeafSpec,
    fields: Map<Seq<char>, ValueView>,
    table: Readings,
    source: Option<BindingView>,
)
    requires
        leaf.primitive == PrimitiveKind::Progress,
        leaf.value is Some ==> source == Some(leaf.value->0@),
        leaf.value is None && leaf.binding is Some ==> source == Some(leaf.binding->0@),
        leaf.value is None && leaf.binding is None ==> source is None,
    ensures
        ({
            let r = build_node_spec(LayoutNode::Leaf { leaf }, fields, table);
            let p = r->0->Leaf_0;
            let lifetime = source == Some(BindingView::FieldRef("lifetime"@));
            &&& r is Some && r->0 is Leaf && p is Progress
            &&& has_style(leaf, p->Progress_style)
            &&& lifetime ==> p->mode == ProgressMode::Lifetime && p->Progress_value.bits
                == 0x3FF0_0000_0000_0000
            &&& !lifetime ==> p->mode == ProgressMode::Value
            &&& !lifetime && source is Some ==> is_fraction_of(
                binding::resolve_float_spec(source->0, fields, table),
                p->Progress_value,
            )
            &&& source is None ==> p->Progress_value.bits == 0
        }),
{
}

/// A spacer leaf takes the room that it asks for, none by default.
pub proof fn spacers_take_their_room(
    leaf: LeafSpec,
    fields: Map<Seq<char>, ValueView>,
    table: Readings,
)
    requires
        leaf.primitive == PrimitiveKind::Spacer,
    ensures
        ({
            let r = build_node_spec(LayoutNode::Leaf { leaf }, fields, table);
            &&& r is Some && r->0 is Leaf && r->0->Leaf_0 is Spacer
            &&& leaf.size is Some ==> r->0->Leaf_0->size == leaf.size->0
            &&& leaf.size is None ==> r->0->Leaf_0->size == F32(0)
        }),
{
}

} // verus!
