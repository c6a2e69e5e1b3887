//! Machine-readable schema descriptors for configuration forms.
//!
//! Two layers: per-field metadata derived from a type's [`FieldSpec`]s, so that a form can be
//! rendered for any user type, and descriptor tables for the theme, config and overrides forms.

use vstd::prelude::*;

use crate::binding;
use crate::binding::Value;
use crate::number;
use crate::number::{Number, NumberView, Readings};
use crate::template;
use crate::template::{FieldKind, FieldSpec, TypeTemplate};
use crate::text;
use crate::theme;
use crate::theme::Theme;

verus! {

/// A widget hint for one field, with the constraints that a form needs to render an input.
#[derive(Debug, PartialEq, Eq)]
#[allow(inconsistent_fields)]
pub enum FieldWidget {
    Text { default: Option<String> },
    Float { min: Option<Number>, max: Option<Number>, default: Option<Number> },
    Enum { values: Vec<String>, default: Option<String> },
    Bool { default: Option<bool> },
    Image { default: Option<String> },
    Icon { default: Option<String> },
}

/// The view of a [`FieldWidget`].
#[allow(inconsistent_fields)]
pub enum FieldWidgetView {
    Text { default: Option<Seq<char>> },
    Float { min: Option<NumberView>, max: Option<NumberView>, default: Option<NumberView> },
    Enum { values: Seq<Seq<char>>, default: Option<Seq<char>> },
    Bool { default: Option<bool> },
    Image { default: Option<Seq<char>> },
    Icon { default: Option<Seq<char>> },
}

/// The view of an optional number.
pub open spec fn opt_number(n: Option<Number>) -> Option<NumberView> {
    match n {
        Some(x) => Some(x@),
        None => None,
    }
}

impl View for FieldWidget {
    type V = FieldWidgetView;

    open spec fn view(&self) -> FieldWidgetView {
        match *self {
            FieldWidget::Text { default } => FieldWidgetView::Text {
                default: text::opt_text(default),
            },
            FieldWidget::Float { min, max, default } => FieldWidgetView::Float {
                min: opt_number(min),
                max: opt_number(max),
                default: opt_number(default),
            },
            FieldWidget::Enum { values, default } => FieldWidgetView::Enum {
                values: text::texts(values@),
                default: text::opt_text(default),
            },
            FieldWidget::Bool { default } => FieldWidgetView::Bool { default },
            FieldWidget::Image { default } => FieldWidgetView::Image {
                default: text::opt_text(default),
            },
            FieldWidget::Icon { default } => FieldWidgetView::Icon {
                default: text::opt_text(default),
            },
        }
    }
}

/// Full metadata for one schema field.
#[derive(Debug, PartialEq, Eq)]
pub struct FieldMeta {
    pub name: String,
    pub required: bool,
    pub doc: Option<String>,
    pub widget: FieldWidget,
}

/// The view of a [`FieldMeta`].
pub struct FieldMetaView {
    pub name: Seq<char>,
    pub required: bool,
    pub doc: Option<Seq<char>>,
    pub widget: FieldWidgetView,
}

impl View for FieldMeta {
    type V = FieldMetaView;

    open spec fn view(&self) -> FieldMetaView {
        FieldMetaView {
            name: self.name@,
            required: self.required,
            doc: text::opt_text(self.doc),
            widget: self.widget@,
        }
    }
}

/// The widget of a field, given what texts read as. The default of a bool field counts as set when
/// it stands for a number other than 0.
pub open spec fn widget_spec(spec: FieldSpec, table: Readings) -> FieldWidgetView {
    let default_text = match spec.default {
        Some(v) => Some(binding::value_text(v@)),
        None => None,
    };
    let default_number = match spec.default {
        Some(v) => Some(binding::value_float(v@, table)),
        None => None,
    };
    match spec.kind {
        FieldKind::String => FieldWidgetView::Text { default: default_text },
        FieldKind::Float => FieldWidgetView::Float {
            min: opt_number(spec.min),
            max: opt_number(spec.max),
            default: default_number,
        },
        FieldKind::Enum => FieldWidgetView::Enum {
            values: text::texts(spec.values@),
            default: default_text,
        },
        FieldKind::Bool => FieldWidgetView::Bool {
            default: match default_number {
                Some(n) => Some(number::nonzero_spec(n.bits)),
                None => None,
            },
        },
        FieldKind::Image => FieldWidgetView::Image { default: default_text },
        FieldKind::Icon => FieldWidgetView::Icon { default: default_text },
    }
}

/// The metadata of a field.
pub open spec fn meta_spec(name: Seq<char>, spec: FieldSpec, table: Readings) -> FieldMetaView {
    FieldMetaView {
        name,
        required: spec.required,
        doc: text::opt_text(spec.doc),
        widget: widget_spec(spec, table),
    }
}

fn default_text(d: &Option<Value>) -> (r: Option<String>)
    ensures
        text::opt_text(r) == (match *d {
            Some(v) => Some(binding::value_text(v@)),
            None => None,
        }),
{
    match d {
        Some(v) => Some(v.as_text()),
        None => None,
    }
}

fn default_number(d: &Option<Value>, table: &Readings) -> (r: Option<Number>)
    ensures
        opt_number(r) == (match *d {
            Some(v) => Some(binding::value_float(v@, *table)),
            None => None,
        }),
{
    match d {
        Some(v) => Some(v.as_float(table)),
        None => None,
    }
}

fn clone_number(n: &Option<Number>) -> (r: Option<Number>)
    ensures
        opt_number(r) == opt_number(*n),
{
    match n {
        Some(x) => Some(x.clone()),
        None => None,
    }
}

impl FieldSpec {
    /// The metadata of this field under the name `name`.
    pub fn meta(&self, name: &str, table: &Readings) -> (r: FieldMeta)
        ensures
            r@ == meta_spec(name@, *self, *table),
    {
        let widget = match self.kind {
            FieldKind::String => FieldWidget::Text { default: default_text(&self.default) },
            FieldKind::Float => FieldWidget::Float {
                min: clone_number(&self.min),
                max: clone_number(&self.max),
                default: default_number(&self.default, table),
            },
            FieldKind::Enum => FieldWidget::Enum {
                values: text::clone_texts(&self.values),
                default: default_text(&self.default),
            },
            FieldKind::Bool => FieldWidget::Bool {
                default: match default_number(&self.default, table) {
                    Some(n) => Some(n.nonzero()),
                    None => None,
                },
            },
            FieldKind::Image => FieldWidget::Image { default: default_text(&self.default) },
            FieldKind::Icon => FieldWidget::Icon { default: default_text(&self.default) },
        };
        FieldMeta {
            name: name.to_string(),
            required: self.required,
            doc: self.doc.clone(),
            widget,
        }
    }
}

impl TypeTemplate {
    /// Field metadata in declaration order.
    pub fn field_metas(&self, table: &Readings) -> (r: Vec<FieldMeta>)
        ensures
            r@.len() == self.schema().len(),
            forall|i: int|
                0 <= i < self.schema().len() ==> (#[trigger] r@[i])@ == meta_spec(
                    self.schema()[i].0,
                    self.schema()[i].1,
                    *table,
                ),
    {
        let n = template::schema_len(&self.fields);
        let mut out: Vec<FieldMeta> = Vec::new();
        let mut i: usize = 0;
        while i < n
            invariant
                n == self.schema().len(),
                i <= n,
                out@.len() == i,
                forall|j: int|
                    0 <= j < i ==> (#[trigger] out@[j])@ == meta_spec(
                        self.schema()[j].0,
                        self.schema()[j].1,
                        *table,
                    ),
            decreases n - i,
        {
            if let Some((name, spec)) = template::schema_entry(&self.fields, i) {
                out.push(spec.meta(name.as_str(), table));
            }
            i = i + 1;
        }
        out
    }
}

/// The kind of a settings field, for the theme, config and overrides forms.
#[derive(Debug, PartialEq, Eq)]
#[allow(inconsistent_fields)]
pub enum SettingKind {
    Bool,
    Int { min: Option<i64>, max: Option<i64> },
    Float { min: Option<Number>, max: Option<Number> },
    Color,
    Font,
    Enum { values: Vec<&'static str> },
    String,
}

/// The view of a [`SettingKind`].
#[allow(inconsistent_fields)]
pub enum SettingKindView {
    Bool,
    Int { min: Option<i64>, max: Option<i64> },
    Float { min: Option<NumberView>, max: Option<NumberView> },
    Color,
    Font,
    Enum { values: Seq<Seq<char>> },
    String,
}

impl View for SettingKind {
    type V = SettingKindView;

    open spec fn view(&self) -> SettingKindView {
        match *self {
            SettingKind::Bool => SettingKindView::Bool,
            SettingKind::Int { min, max } => SettingKindView::Int { min, max },
            SettingKind::Float { min, max } => SettingKindView::Float {
                min: opt_number(min),
                max: opt_number(max),
            },
            SettingKind::Color => SettingKindView::Color,
            SettingKind::Font => SettingKindView::Font,
            SettingKind::Enum { values } => SettingKindView::Enum {
                values: values@.map_values(|s: &'static str| s@),
            },
            SettingKind::String => SettingKindView::String,
        }
    }
}

/// The default of a settings field.
#[derive(Debug, PartialEq, Eq)]
pub enum SettingDefault {
    Null,
    Bool(bool),
    Int(i64),
    Float(Number),
    Text(&'static str),
}

/// The view of a [`SettingDefault`].
pub enum SettingDefaultView {
    Null,
    Bool(bool),
    Int(i64),
    Float(NumberView),
    Text(Seq<char>),
}

impl View for SettingDefault {
    type V = SettingDefaultView;

    open spec fn view(&self) -> SettingDefaultView {
        match *self {
            SettingDefault::Null => SettingDefaultView::Null,
            SettingDefault::Bool(b) => SettingDefaultView::Bool(b),
            SettingDefault::Int(n) => SettingDefaultView::Int(n),
            SettingDefault::Float(n) => SettingDefaultView::Float(n@),
            SettingDefault::Text(s) => SettingDefaultView::Text(s@),
        }
    }
}

/// One descriptor row for a settings form.
#[derive(Debug, PartialEq, Eq)]
pub struct SettingField {
    /// Dotted path into the struct, e.g. `island.corner_radius`.
    pub path: &'static str,
    pub kind: SettingKind,
    pub default: SettingDefault,
    pub doc: &'static str,
}

/// The view of a [`SettingField`].
pub struct SettingFieldView {
    pub path: Seq<char>,
    pub kind: SettingKindView,
    pub default: SettingDefaultView,
    pub doc: Seq<char>,
}

impl View for SettingField {
    type V = SettingFieldView;

    open spec fn view(&self) -> SettingFieldView {
        SettingFieldView {
            path: self.path@,
            kind: self.kind@,
            default: self.default@,
            doc: self.doc@,
        }
    }
}

/// The views of a list of rows.
pub open spec fn setting_views(v: Seq<SettingField>) -> Seq<SettingFieldView> {
    v.map_values(|f: SettingField| f@)
}

/// An integer setting with inclusive bounds.
pub open spec fn int_kind_spec(min: i64, max: i64) -> SettingKindView {
    SettingKindView::Int { min: Some(min), max: Some(max) }
}

/// A number setting with inclusive bounds.
pub open spec fn float_kind_spec(min: NumberView, max: NumberView) -> SettingKindView {
    SettingKindView::Float { min: Some(min), max: Some(max) }
}

fn int_kind(min: i64, max: i64) -> (r: SettingKind)
    ensures
        r@ == int_kind_spec(min, max),
{
    SettingKind::Int { min: Some(min), max: Some(max) }
}

fn float_kind(min: Number, max: Number) -> (r: SettingKind)
    ensures
        r@ == float_kind_spec(min@, max@),
{
    SettingKind::Float { min: Some(min), max: Some(max) }
}

fn number(bits: u64, text: &str) -> (r: Number)
    ensures
        r@ == (NumberView { bits, text: text@ }),
{
    Number { bits, text: text.to_string() }
}

/// The rows of [`theme_schema`].
pub open spec fn theme_rows() -> Seq<SettingFieldView> {
    seq![
        SettingFieldView {
            path: "island.anchor"@,
            kind: SettingKindView::Enum { values: seq!["top"@] },
            default: SettingDefaultView::Text("top"@),
            doc: "Island anchor edge (top = centered)."@,
        },
        SettingFieldView {
            path: "island.margin_top"@,
            kind: int_kind_spec(0, 400),
            default: SettingDefaultView::Int(12),
            doc: "Gap below the screen edge, px."@,
        },
        SettingFieldView {
            path: "island.min_width"@,
            kind: int_kind_spec(100, 2000),
            default: SettingDefaultView::Int(360),
            doc: "Minimum island width, px."@,
        },
        SettingFieldView {
            path: "island.max_width"@,
            kind: int_kind_spec(100, 2000),
            default: SettingDefaultView::Int(520),
            doc: "Maximum island width, px."@,
        },
        SettingFieldView {
            path: "island.height"@,
            kind: int_kind_spec(24, 400),
            default: SettingDefaultView::Int(64),
            doc: "Island height, px."@,
        },
        SettingFieldView {
            path: "island.corner_radius"@,
            kind: float_kind_spec(NumberView { bits: 0x0000_0000_0000_0000, text: "0"@ }, NumberView { bits: 0x4069_0000_0000_0000, text: "200"@ }),
            default: SettingDefaultView::Float(NumberView { bits: 0x403C_0000_0000_0000, text: "28"@ }),
            doc: "Corner radius, px."@,
        },
        SettingFieldView {
            path: "island.background"@,
            kind: SettingKindView::Color,
            default: SettingDefaultView::Text("#0a0a0bf2"@),
            doc: "Background fill (RRGGBBAA — alpha = transparency)."@,
        },
        SettingFieldView {
            path: "island.blur"@,
            kind: SettingKindView::Bool,
            default: SettingDefaultView::Bool(false),
            doc: "Backdrop blur behind the island."@,
        },
        SettingFieldView {
            path: "fonts.ui"@,
            kind: SettingKindView::Font,
            default: SettingDefaultView::Text("Noto Sans"@),
            doc: "UI font family."@,
        },
        SettingFieldView {
            path: "fonts.title_px"@,
            kind: float_kind_spec(NumberView { bits: 0x4018_0000_0000_0000, text: "6"@ }, NumberView { bits: 0x4052_0000_0000_0000, text: "72"@ }),
            default: SettingDefaultView::Float(NumberView { bits: 0x402E_0000_0000_0000, text: "15"@ }),
            doc: "Title font size, px."@,
        },
        SettingFieldView {
            path: "fonts.subtitle_px"@,
            kind: float_kind_spec(NumberView { bits: 0x4018_0000_0000_0000, text: "6"@ }, NumberView { bits: 0x4052_0000_0000_0000, text: "72"@ }),
            default: SettingDefaultView::Float(NumberView { bits: 0x4028_0000_0000_0000, text: "12"@ }),
            doc: "Subtitle font size, px."@,
        },
        SettingFieldView {
            path: "colors.title"@,
            kind: SettingKindView::Color,
            default: SettingDefaultView::Text("#ffffffff"@),
            doc: "Title text color."@,
        },
        SettingFieldView {
            path: "colors.subtitle"@,
            kind: SettingKindView::Color,
            default: SettingDefaultView::Text("#b8b8beff"@),
            doc: "Subtitle text color."@,
        },
        SettingFieldView {
            path: "colors.accent"@,
            kind: SettingKindView::Color,
            default: SettingDefaultView::Text("#ffffffff"@),
            doc: "Accent (progress bar fill)."@,
        },
        SettingFieldView {
            path: "colors.icon"@,
            kind: SettingKindView::Color,
            default: SettingDefaultView::Text("#e6e6eaff"@),
            doc: "Icon tint."@,
        },
    ]
}

/// Descriptors for the `theme.toml` form.
pub fn theme_schema() -> (r: Vec<SettingField>)
    ensures
        setting_views(r@) == theme_rows(),
{
    let r = vec![
        SettingField {
            path: "island.anchor",
            kind: SettingKind::Enum { values: vec!["top"] },
            default: SettingDefault::Text("top"),
            doc: "Island anchor edge (top = centered).",
        },
        SettingField {
            path: "island.margin_top",
            kind: int_kind(0, 400),
            default: SettingDefault::Int(12),
            doc: "Gap below the screen edge, px.",
        },
        SettingField {
            path: "island.min_width",
            kind: int_kind(100, 2000),
            default: SettingDefault::Int(360),
            doc: "Minimum island width, px.",
        },
        SettingField {
            path: "island.max_width",
            kind: int_kind(100, 2000),
            default: SettingDefault::Int(520),
            doc: "Maximum island width, px.",
        },
        SettingField {
            path: "island.height",
            kind: int_kind(24, 400),
            default: SettingDefault::Int(64),
            doc: "Island height, px.",
        },
        SettingField {
            path: "island.corner_radius",
            kind: float_kind(number(0x0000_0000_0000_0000, "0"), number(0x4069_0000_0000_0000, "200")),
            default: SettingDefault::Float(number(0x403C_0000_0000_0000, "28")),
            doc: "Corner radius, px.",
        },
        SettingField {
            path: "island.background",
            kind: SettingKind::Color,
            default: SettingDefault::Text("#0a0a0bf2"),
            doc: "Background fill (RRGGBBAA — alpha = transparency).",
        },
        SettingField {
            path: "island.blur",
            kind: SettingKind::Bool,
            default: SettingDefault::Bool(false),
            doc: "Backdrop blur behind the island.",
        },
        SettingField {
            path: "fonts.ui",
            kind: SettingKind::Font,
            default: SettingDefault::Text("Noto Sans"),
            doc: "UI font family.",
        },
        SettingField {
            path: "fonts.title_px",
            kind: float_kind(number(0x4018_0000_0000_0000, "6"), number(0x4052_0000_0000_0000, "72")),
            default: SettingDefault::Float(number(0x402E_0000_0000_0000, "15")),
            doc: "Title font size, px.",
        },
        SettingField {
            path: "fonts.subtitle_px",
            kind: float_kind(number(0x4018_0000_0000_0000, "6"), number(0x4052_0000_0000_0000, "72")),
            default: SettingDefault::Float(number(0x4028_0000_0000_0000, "12")),
            doc: "Subtitle font size, px.",
        },
        SettingField {
            path: "colors.title",
            kind: SettingKind::Color,
            default: SettingDefault::Text("#ffffffff"),
            doc: "Title text color.",
        },
        SettingField {
            path: "colors.subtitle",
            kind: SettingKind::Color,
            default: SettingDefault::Text("#b8b8beff"),
            doc: "Subtitle text color.",
        },
        SettingField {
            path: "colors.accent",
            kind: SettingKind::Color,
            default: SettingDefault::Text("#ffffffff"),
            doc: "Accent (progress bar fill).",
        },
        SettingField {
            path: "colors.icon",
            kind: SettingKind::Color,
            default: SettingDefault::Text("#e6e6eaff"),
            doc: "Icon tint.",
        },
    ];
    proof {
        assert(r@[0].kind@->Enum_values =~= theme_rows()[0].kind->Enum_values);
        assert(setting_views(r@)[0] == theme_rows()[0]);
        assert(setting_views(r@)[1] == theme_rows()[1]);
        assert(setting_views(r@)[2] == theme_rows()[2]);
        assert(setting_views(r@)[3] == theme_rows()[3]);
        assert(setting_views(r@)[4] == theme_rows()[4]);
        assert(setting_views(r@)[5] == theme_rows()[5]);
        assert(setting_views(r@)[6] == theme_rows()[6]);
        assert(setting_views(r@)[7] == theme_rows()[7]);
        assert(setting_views(r@)[8] == theme_rows()[8]);
        assert(setting_views(r@)[9] == theme_rows()[9]);
        assert(setting_views(r@)[10] == theme_rows()[10]);
        assert(setting_views(r@)[11] == theme_rows()[11]);
        assert(setting_views(r@)[12] == theme_rows()[12]);
        assert(setting_views(r@)[13] == theme_rows()[13]);
        assert(setting_views(r@)[14] == theme_rows()[14]);
        assert(setting_views(r@) =~= theme_rows());
    }
    r
}

/// The rows of [`config_schema`].
pub open spec fn config_rows() -> Seq<SettingFieldView> {
    seq![
        SettingFieldView {
            path: "monitor"@,
            kind: SettingKindView::String,
            default: SettingDefaultView::Text("auto"@),
            doc: "Output to show on (\"auto\" or a connector like DP-1)."@,
        },
        SettingFieldView {
            path: "log_level"@,
            kind: SettingKindView::Enum { values: seq!["error"@, "warn"@, "info"@, "debug"@, "trace"@] },
            default: SettingDefaultView::Text("info"@),
            doc: "Log verbosity."@,
        },
        SettingFieldView {
            path: "queue.policy"@,
            kind: SettingKindView::Enum { values: seq!["priority-preempt"@, "fifo"@] },
            default: SettingDefaultView::Text("priority-preempt"@),
            doc: "How competing notifications share the island."@,
        },
        SettingFieldView {
            path: "queue.max_visible"@,
            kind: int_kind_spec(1, 1),
            default: SettingDefaultView::Int(1),
            doc: "Concurrent surfaces (1 = single island)."@,
        },
        SettingFieldView {
            path: "queue.coalesce_replace"@,
            kind: SettingKindView::Bool,
            default: SettingDefaultView::Bool(true),
            doc: "Collapse same-replace_key updates onto one surface."@,
        },
        SettingFieldView {
            path: "sources.mpris.debounce_ms"@,
            kind: int_kind_spec(0, 5000),
            default: SettingDefaultView::Int(250),
            doc: "Debounce MPRIS position spam, ms."@,
        },
    ]
}

/// Descriptors for the `config.toml` form.
pub fn config_schema() -> (r: Vec<SettingField>)
    ensures
        setting_views(r@) == config_rows(),
{
    let r = vec![
        SettingField {
            path: "monitor",
            kind: SettingKind::String,
            default: SettingDefault::Text("auto"),
            doc: "Output to show on (\"auto\" or a connector like DP-1).",
        },
        SettingField {
            path: "log_level",
            kind: SettingKind::Enum { values: vec!["error", "warn", "info", "debug", "trace"] },
            default: SettingDefault::Text("info"),
            doc: "Log verbosity.",
        },
        SettingField {
            path: "queue.policy",
            kind: SettingKind::Enum { values: vec!["priority-preempt", "fifo"] },
            default: SettingDefault::Text("priority-preempt"),
            doc: "How competing notifications share the island.",
        },
        SettingField {
            path: "queue.max_visible",
            kind: int_kind(1, 1),
            default: SettingDefault::Int(1),
            doc: "Concurrent surfaces (1 = single island).",
        },
        SettingField {
            path: "queue.coalesce_replace",
            kind: SettingKind::Bool,
            default: SettingDefault::Bool(true),
            doc: "Collapse same-replace_key updates onto one surface.",
        },
        SettingField {
            path: "sources.mpris.debounce_ms",
            kind: int_kind(0, 5000),
            default: SettingDefault::Int(250),
            doc: "Debounce MPRIS position spam, ms.",
        },
    ];
    proof {
        assert(r@[1].kind@->Enum_values =~= config_rows()[1].kind->Enum_values);
        assert(r@[2].kind@->Enum_values =~= config_rows()[2].kind->Enum_values);
        assert(setting_views(r@)[0] == config_rows()[0]);
        assert(setting_views(r@)[1] == config_rows()[1]);
        assert(setting_views(r@)[2] == config_rows()[2]);
        assert(setting_views(r@)[3] == config_rows()[3]);
        assert(setting_views(r@)[4] == config_rows()[4]);
        assert(setting_views(r@)[5] == config_rows()[5]);
        assert(setting_views(r@) =~= config_rows());
    }
    r
}

/// The rows of [`overrides_schema`].
pub open spec fn overrides_rows() -> Seq<SettingFieldView> {
    seq![
        SettingFieldView {
            path: "min_width"@,
            kind: int_kind_spec(100, 2000),
            default: SettingDefaultView::Null,
            doc: "Override min width, px."@,
        },
        SettingFieldView {
            path: "max_width"@,
            kind: int_kind_spec(100, 2000),
            default: SettingDefaultView::Null,
            doc: "Override max width, px."@,
        },
        SettingFieldView {
            path: "height"@,
            kind: int_kind_spec(24, 400),
            default: SettingDefaultView::Null,
            doc: "Override height, px."@,
        },
        SettingFieldView {
            path: "corner_radius"@,
            kind: float_kind_spec(NumberView { bits: 0x0000_0000_0000_0000, text: "0"@ }, NumberView { bits: 0x4069_0000_0000_0000, text: "200"@ }),
            default: SettingDefaultView::Null,
            doc: "Override corner radius, px."@,
        },
        SettingFieldView {
            path: "background"@,
            kind: SettingKindView::Color,
            default: SettingDefaultView::Null,
            doc: "Override background (RRGGBBAA — transparency)."@,
        },
        SettingFieldView {
            path: "blur"@,
            kind: SettingKindView::Bool,
            default: SettingDefaultView::Null,
            doc: "Override backdrop blur."@,
        },
        SettingFieldView {
            path: "timeout_ms"@,
            kind: int_kind_spec(0, 120_000),
            default: SettingDefaultView::Null,
            doc: "Override timeout (0 = sticky), ms."@,
        },
        SettingFieldView {
            path: "priority"@,
            kind: int_kind_spec(0, 100),
            default: SettingDefaultView::Null,
            doc: "Override priority."@,
        },
        SettingFieldView {
            path: "anim_profile"@,
            kind: SettingKindView::String,
            default: SettingDefaultView::Null,
            doc: "Override anim profile name."@,
        },
    ]
}

/// Descriptors for the fields that a type's `[overrides]` may set (a subset of theme and behavior).
pub fn overrides_schema() -> (r: Vec<SettingField>)
    ensures
        setting_views(r@) == overrides_rows(),
{
    let r = vec![
        SettingField {
            path: "min_width",
            kind: int_kind(100, 2000),
            default: SettingDefault::Null,
            doc: "Override min width, px.",
        },
        SettingField {
            path: "max_width",
            kind: int_kind(100, 2000),
            default: SettingDefault::Null,
            doc: "Override max width, px.",
        },
        SettingField {
            path: "height",
            kind: int_kind(24, 400),
            default: SettingDefault::Null,
            doc: "Override height, px.",
        },
        SettingField {
            path: "corner_radius",
            kind: float_kind(number(0x0000_0000_0000_0000, "0"), number(0x4069_0000_0000_0000, "200")),
            default: SettingDefault::Null,
            doc: "Override corner radius, px.",
        },
        SettingField {
            path: "background",
            kind: SettingKind::Color,
            default: SettingDefault::Null,
            doc: "Override background (RRGGBBAA — transparency).",
        },
        SettingField {
            path: "blur",
            kind: SettingKind::Bool,
            default: SettingDefault::Null,
            doc: "Override backdrop blur.",
        },
        SettingField {
            path: "timeout_ms",
            kind: int_kind(0, 120_000),
            default: SettingDefault::Null,
            doc: "Override timeout (0 = sticky), ms.",
        },
        SettingField {
            path: "priority",
            kind: int_kind(0, 100),
            default: SettingDefault::Null,
            doc: "Override priority.",
        },
        SettingField {
            path: "anim_profile",
            kind: SettingKind::String,
            default: SettingDefault::Null,
            doc: "Override anim profile name.",
        },
    ];
    proof {
        assert(setting_views(r@)[0] == overrides_rows()[0]);
        assert(setting_views(r@)[1] == overrides_rows()[1]);
        assert(setting_views(r@)[2] == overrides_rows()[2]);
        assert(setting_views(r@)[3] == overrides_rows()[3]);
        assert(setting_views(r@)[4] == overrides_rows()[4]);
        assert(setting_views(r@)[5] == overrides_rows()[5]);
        assert(setting_views(r@)[6] == overrides_rows()[6]);
        assert(setting_views(r@)[7] == overrides_rows()[7]);
        assert(setting_views(r@)[8] == overrides_rows()[8]);
        assert(setting_views(r@) =~= overrides_rows());
    }
    r
}

/// Whether a form offers `d` for a field whose default is `v`: the default as it reads, and nothing
/// without one.
pub open spec fn offered(v: Option<Value>, d: Option<Seq<char>>) -> bool {
    &&& v is None ==> d is None
    &&& v is Some ==> d is Some && binding::says(v->0@, d->0)
}

/// A form offers each field the input of its kind, with the bounds or the choices that the type
/// declares, and starts it with the declared default: as text where text is typed, as a number where
/// a number is, and as a switch that is on for any number but 0.
pub proof fn widgets_follow_the_declaration(spec: FieldSpec, table: Readings)
    ensures
        ({
            let w = widget_spec(spec, table);
            match spec.kind {
                FieldKind::String => w is Text && offered(spec.default, w->Text_default),
                FieldKind::Image => w is Image && offered(spec.default, w->Image_default),
                FieldKind::Icon => w is Icon && offered(spec.default, w->Icon_default),
                FieldKind::Enum => {
                    &&& w is Enum
                    &&& w->values.len() == spec.values@.len()
                    &&& forall|i: int|
                        0 <= i < spec.values@.len() ==> #[trigger] w->values[i] == spec.values@[i]@
                    &&& offered(spec.default, w->Enum_default)
                },
                FieldKind::Float => {
                    &&& w is Float
                    &&& spec.min is None ==> w->min is None
                    &&& spec.min is Some ==> w->min == Some(spec.min->0@)
                    &&& spec.max is None ==> w->max is None
                    &&& spec.max is Some ==> w->max == Some(spec.max->0@)
                    &&& spec.default is None ==> w->Float_default is None
                    &&& spec.default is Some ==> w->Float_default is Some && binding::counts_as(
                        spec.default->0@,
                        table,
                        w->Float_default->0,
                    )
                },
                FieldKind::Bool => {
                    &&& w is Bool
                    &&& spec.default is None ==> w->Bool_default is None
                    &&& spec.default is Some ==> w->Bool_default is Some && forall|
                        n: NumberView,
                    | #[trigger]
                        binding::counts_as(spec.default->0@, table, n) ==> (w->Bool_default->0
                            <==> n.bits != 0 && n.bits != 0x8000_0000_0000_0000)
                },
            }
        }),
{
    if spec.default is Some {
        binding::values_read_and_count(spec.default->0@, table);
    }
}

/// A field is described under its name, with its description, as required exactly when the type
/// requires it, and with its widget.
pub proof fn fields_are_described_as_declared(name: Seq<char>, spec: FieldSpec, table: Readings)
    ensures
        ({
            let m = meta_spec(name, spec, table);
            &&& m.name == name
            &&& m.required == spec.required
            &&& spec.doc is None ==> m.doc is None
            &&& spec.doc is Some ==> m.doc == Some(spec.doc->0@)
            &&& m.widget == widget_spec(spec, table)
        }),
{
}

/// Whether a row's default is one that its own input takes.
pub open spec fn starts_in_bounds(f: SettingFieldView) -> bool {
    match f.kind {
        SettingKindView::Bool => f.default is Bool,
        SettingKindView::Int { min, max } => {
            &&& f.default is Int && min is Some && max is Some
            &&& min->0 <= f.default->Int_0 <= max->0
        },
        SettingKindView::Float { min, max } => {
            &&& f.default is Float && min is Some && max is Some
            &&& !number::f64_less(f.default->Float_0.bits, min->0.bits)
            &&& !number::f64_less(max->0.bits, f.default->Float_0.bits)
        },
        SettingKindView::Color => f.default is Text && f.default->Text_0.len() == 9
            && f.default->Text_0[0] == '#',
        SettingKindView::Font => f.default is Text,
        SettingKindView::Enum { values } => f.default is Text && exists|i: int|
            0 <= i < values.len() && #[trigger] values[i] == f.default->Text_0,
        SettingKindView::String => f.default is Text,
    }
}

/// Every row of the theme and config forms starts with a value that it takes itself.
pub proof fn forms_start_in_bounds(i: int)
    ensures
        0 <= i < theme_rows().len() ==> starts_in_bounds(theme_rows()[i]),
        0 <= i < config_rows().len() ==> starts_in_bounds(config_rows()[i]),
{
    reveal_strlit("#0a0a0bf2");
    reveal_strlit("#ffffffff");
    reveal_strlit("#b8b8beff");
    reveal_strlit("#e6e6eaff");
    let t = theme_rows();
    let c = config_rows();
    assert(t[0].kind->Enum_values[0] == "top"@);
    assert(c[1].kind->Enum_values[2] == "info"@);
    assert(c[2].kind->Enum_values[0] == "priority-preempt"@);
    assert(starts_in_bounds(t[0]));
    assert(starts_in_bounds(t[1]));
    assert(starts_in_bounds(t[2]));
    assert(starts_in_bounds(t[3]));
    assert(starts_in_bounds(t[4]));
    assert(starts_in_bounds(t[5]));
    assert(starts_in_bounds(t[6]));
    assert(starts_in_bounds(t[7]));
    assert(starts_in_bounds(t[8]));
    assert(starts_in_bounds(t[9]));
    assert(starts_in_bounds(t[10]));
    assert(starts_in_bounds(t[11]));
    assert(starts_in_bounds(t[12]));
    assert(starts_in_bounds(t[13]));
    assert(starts_in_bounds(t[14]));
    assert(starts_in_bounds(c[0]));
    assert(starts_in_bounds(c[1]));
    assert(starts_in_bounds(c[2]));
    assert(starts_in_bounds(c[3]));
    assert(starts_in_bounds(c[4]));
    assert(starts_in_bounds(c[5]));
    assert(t.len() == 15 && c.len() == 6);
    if 0 <= i < 15 {
        assert(i == 0 || i == 1 || i == 2 || i == 3 || i == 4 || i == 5 || i == 6 || i == 7 || i == 8
            || i == 9 || i == 10 || i == 11 || i == 12 || i == 13 || i == 14);
    }
}

/// An override is optional: its row starts empty.
pub proof fn overrides_start_empty(i: int)
    requires
        0 <= i < overrides_rows().len(),
    ensures
        overrides_rows()[i].default is Null,
{
}

/// Where an override replaces a setting of the island, its input is that of the setting.
pub proof fn overrides_take_what_the_theme_takes()
    ensures
        theme_rows()[2].path == "island."@ + overrides_rows()[0].path,
        theme_rows()[2].kind == overrides_rows()[0].kind,
        theme_rows()[3].path == "island."@ + overrides_rows()[1].path,
        theme_rows()[3].kind == overrides_rows()[1].kind,
        theme_rows()[4].path == "island."@ + overrides_rows()[2].path,
        theme_rows()[4].kind == overrides_rows()[2].kind,
        theme_rows()[5].path == "island."@ + overrides_rows()[3].path,
        theme_rows()[5].kind == overrides_rows()[3].kind,
        theme_rows()[6].path == "island."@ + overrides_rows()[4].path,
        theme_rows()[6].kind == overrides_rows()[4].kind,
        theme_rows()[7].path == "island."@ + overrides_rows()[5].path,
        theme_rows()[7].kind == overrides_rows()[5].kind,
{
    reveal_strlit("island.");
    reveal_strlit("island.min_width");
    reveal_strlit("min_width");
    reveal_strlit("island.max_width");
    reveal_strlit("max_width");
    reveal_strlit("island.height");
    reveal_strlit("height");
    reveal_strlit("island.corner_radius");
    reveal_strlit("corner_radius");
    reveal_strlit("island.background");
    reveal_strlit("background");
    reveal_strlit("island.blur");
    reveal_strlit("blur");
}

/// The theme form starts from the built-in theme's geometry, font, background and text colors.
pub proof fn theme_forms_start_from_the_built_in_theme(t: Theme)
    requires
        theme::is_default(t),
    ensures
        theme_rows()[0].default == SettingDefaultView::Text(t.island.anchor@),
        theme_rows()[1].default == SettingDefaultView::Int(t.island.margin_top as i64),
        theme_rows()[2].default == SettingDefaultView::Int(t.island.min_width as i64),
        theme_rows()[3].default == SettingDefaultView::Int(t.island.max_width as i64),
        theme_rows()[4].default == SettingDefaultView::Int(t.island.height as i64),
        theme_rows()[6].default == SettingDefaultView::Text(theme::hex_spec(t.island.background)),
        theme_rows()[7].default == SettingDefaultView::Bool(t.island.blur),
        theme_rows()[8].default == SettingDefaultView::Text(t.fonts.ui@),
        theme_rows()[11].default == SettingDefaultView::Text(theme::hex_spec(t.colors.title)),
        theme_rows()[12].default == SettingDefaultView::Text(theme::hex_spec(t.colors.subtitle)),
{
    reveal_strlit("#0a0a0bf2");
    reveal_strlit("#ffffffff");
    reveal_strlit("#b8b8beff");
    assert("#0a0a0bf2"@ =~= theme::hex_spec(t.island.background));
    assert("#ffffffff"@ =~= theme::hex_spec(t.colors.title));
    assert("#b8b8beff"@ =~= theme::hex_spec(t.colors.subtitle));
}

} // verus!
