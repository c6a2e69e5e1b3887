//! Notification type templates: the schema of one `types/<name>.toml`.
//!
//! A template declares its `[type]` metadata, a `[fields]` schema (validated by
//! [`crate::bind`]), a `[layout]` primitive tree, and optional `[overrides]` that layer over the
//! theme.

use vstd::prelude::*;

use indexmap::IndexMap;

use crate::binding::{Binding, Value};
use crate::number::{F32, Number};
use crate::scene::{Align, LayoutAttrs};
use crate::style::StyleOverrides;

verus! {

/// The profile of a type that names none.
pub fn default_anim_profile() -> (r: String)
    ensures
        r@ == "island_soft"@,
{
    "island_soft".to_string()
}

/// The `[type]` header.
#[derive(Debug)]
pub struct TypeMeta {
    pub name: String,
    pub priority: i32,
    /// 0 = sticky (closed explicitly, e.g. a song while playing).
    pub timeout_ms: u32,
    pub anim_profile: String,
    /// Collapses updates onto one live surface (e.g. all MPRIS updates share one key).
    pub replace_key: Option<String>,
}

/// The kind of a schema field. Drives coercion and validation in [`crate::bind`].
#[derive(Clone, Copy, Debug, PartialEq, Eq, Structural)]
pub enum FieldKind {
    String,
    Float,
    Image,
    Icon,
    Enum,
    Bool,
}

/// One declared field in a type's `[fields]` schema.
#[derive(Debug)]
pub struct FieldSpec {
    pub kind: FieldKind,
    pub required: bool,
    pub default: Option<Value>,
    /// Allowed set for `enum` fields.
    pub values: Vec<String>,
    /// Inclusive clamp bounds for `float` fields.
    pub min: Option<Number>,
    pub max: Option<Number>,
    /// Human description, surfaced to a configuration form.
    pub doc: Option<String>,
}

/// One of the six render primitives a leaf can be.
#[derive(Clone, Copy, Debug, PartialEq, Eq, Structural)]
pub enum PrimitiveKind {
    Text,
    Marquee,
    Image,
    Icon,
    Progress,
    Spacer,
}

/// How an image fills its box.
#[derive(Clone, Copy, Debug, PartialEq, Eq, Structural)]
pub enum ImageFit {
    Cover,
    Contain,
}

/// Attributes shared by every container node. Each is optional and has a default.
#[derive(Clone, Copy, Debug)]
pub struct ContainerCommon {
    pub padding: Option<[F32; 2]>,
    pub align: Option<Align>,
    pub weight: Option<F32>,
}

impl Default for ContainerCommon {
    fn default() -> (r: Self)
        ensures
            r == (ContainerCommon { padding: None, align: None, weight: None }),
    {
        ContainerCommon { padding: None, align: None, weight: None }
    }
}

impl ContainerCommon {
    /// The concrete attributes: no padding, centered, weight 1 where nothing is set.
    pub open spec fn resolved(self) -> LayoutAttrs {
        LayoutAttrs {
            padding: match self.padding {
                Some(p) => p,
                None => [F32(0), F32(0)],
            },
            align: match self.align {
                Some(a) => a,
                None => Align::Center,
            },
            weight: match self.weight {
                Some(w) => w,
                None => F32(0x3F80_0000),
            },
        }
    }

    /// Resolves to concrete [`LayoutAttrs`], filling unset fields with defaults.
    pub fn resolve(&self) -> (r: LayoutAttrs)
        ensures
            r == self.resolved(),
    {
        let d = LayoutAttrs::default();
        LayoutAttrs {
            padding: match self.padding {
                Some(p) => p,
                None => d.padding,
            },
            align: match self.align {
                Some(a) => a,
                None => d.align,
            },
            weight: match self.weight {
                Some(w) => w,
                None => d.weight,
            },
        }
    }
}

/// A single leaf: one primitive plus how it sources its content and its visual extras.
#[derive(Debug)]
pub struct LeafSpec {
    pub primitive: PrimitiveKind,
    /// Content binding (text, marquee, image, icon). Progress reads [`LeafSpec::value`] first.
    pub binding: Option<Binding>,
    /// Scalar binding for [`PrimitiveKind::Progress`].
    pub value: Option<Binding>,
    /// Named style (color and font role) resolved by the renderer.
    pub style: Option<String>,
    pub speed_px_s: Option<F32>,
    pub radius: Option<F32>,
    pub fit: Option<ImageFit>,
    pub size: Option<F32>,
}

/// The recursive layout tree.
#[derive(Debug)]
pub enum LayoutNode {
    Row { common: ContainerCommon, children: Vec<LayoutNode> },
    Column { common: ContainerCommon, children: Vec<LayoutNode> },
    Stack { common: ContainerCommon, children: Vec<LayoutNode> },
    Leaf { leaf: LeafSpec },
}

/// A full notification type.
#[derive(Debug)]
pub struct TypeTemplate {
    pub meta: TypeMeta,
    /// Kept in declaration order, so that a configuration form lays the fields out as authored.
    pub fields: IndexMap<String, FieldSpec>,
    pub layout: LayoutNode,
    /// Optional per-type theme overrides (`[overrides]`).
    pub overrides: Option<StyleOverrides>,
}

impl TypeTemplate {
    /// The declared fields with their names, in declaration order.
    pub open spec fn schema(self) -> Seq<(Seq<char>, FieldSpec)> {
        schema_of(self.fields)
    }
}

/// `indexmap::IndexMap`, a hash map that keeps the order of insertion.
#[verifier::external_type_specification]
#[verifier::external_body]
#[verifier::reject_recursive_types(KeyOf)]
#[verifier::reject_recursive_types(HeldBy)]
#[verifier::reject_recursive_types(HashState)]
pub struct ExIndexMap<KeyOf, HeldBy, HashState>(indexmap::IndexMap<KeyOf, HeldBy, HashState>);

/// What an `IndexMap` of field declarations holds: its keys with their values, in the order that
/// `get_index` counts them in.
pub uninterp spec fn schema_of(m: IndexMap<String, FieldSpec>) -> Seq<(Seq<char>, FieldSpec)>;

/// Whether no name is declared twice.
pub open spec fn distinct_names(schema: Seq<(Seq<char>, FieldSpec)>) -> bool {
    forall|i: int, j: int|
        0 <= i < j < schema.len() ==> (#[trigger] schema[i]).0 != (#[trigger] schema[j]).0
}

/// Whether `name` is declared.
pub open spec fn declares(schema: Seq<(Seq<char>, FieldSpec)>, name: Seq<char>) -> bool {
    exists|i: int| 0 <= i < schema.len() && (#[trigger] schema[i]).0 == name
}

/// `IndexMap::len`: how many entries there are.
#[verifier::external_body]
pub(crate) fn schema_len(m: &IndexMap<String, FieldSpec>) -> (r: usize)
    ensures
        r == schema_of(*m).len(),
{
    m.len()
}

/// `IndexMap::get_index`: the entry at a position, `None` past the end. A map holds each key once,
/// so no earlier entry has the same name.
#[verifier::external_body]
pub(crate) fn schema_entry<'a>(m: &'a IndexMap<String, FieldSpec>, i: usize) -> (r: Option<
    (&'a String, &'a FieldSpec),
>)
    ensures
        match r {
            Some(e) => {
                &&& i < schema_of(*m).len()
                &&& schema_of(*m)[i as int] == (e.0@, *e.1)
                &&& forall|j: int| 0 <= j < i ==> (#[trigger] schema_of(*m)[j]).0 != e.0@
            },
            None => i >= schema_of(*m).len(),
        },
{
    m.get_index(i)
}

/// `IndexMap::contains_key`: whether an entry has this key.
#[verifier::external_body]
pub(crate) fn schema_declares(m: &IndexMap<String, FieldSpec>, name: &str) -> (r: bool)
    ensures
        r == declares(schema_of(*m), name@),
{
    m.contains_key(name)
}

/// A container has the padding, alignment and weight that it sets, and else none, the center and 1.
pub proof fn set_attributes_win(c: ContainerCommon)
    ensures
        c.padding is Some ==> c.resolved().padding == c.padding->0,
        c.padding is None ==> c.resolved().padding[0] == F32(0) && c.resolved().padding[1] == F32(0),
        c.align is Some ==> c.resolved().align == c.align->0,
        c.align is None ==> c.resolved().align == Align::Center,
        c.weight is Some ==> c.resolved().weight == c.weight->0,
        c.weight is None ==> c.resolved().weight == F32(0x3F80_0000),
{
}

} // verus!
