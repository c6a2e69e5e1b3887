//! Field values and the bindings that pull them into a layout.

use vstd::prelude::*;

use std::borrow::Cow;

use crate::names::NameMap;
use crate::number;
use crate::number::{Number, NumberView, Readings};
use crate::text;

verus! {

/// A dynamically-typed field value carried from a source into a notification.
#[derive(Debug, PartialEq, Eq)]
pub enum Value {
    Text(String),
    Float(Number),
    /// Resolved image handle: a filesystem path or cache key the renderer can load.
    Image(String),
    Bool(bool),
}

/// The view of a [`Value`].
pub enum ValueView {
    Text(Seq<char>),
    Float(NumberView),
    Image(Seq<char>),
    Bool(bool),
}

impl View for Value {
    type V = ValueView;

    open spec fn view(&self) -> ValueView {
        match *self {
            Value::Text(s) => ValueView::Text(s@),
            Value::Float(n) => ValueView::Float(n@),
            Value::Image(s) => ValueView::Image(s@),
            Value::Bool(b) => ValueView::Bool(b),
        }
    }
}

impl Clone for Value {
    fn clone(&self) -> (r: Self)
        ensures
            r == *self,
    {
        match self {
            Value::Text(s) => Value::Text(s.clone()),
            Value::Float(n) => Value::Float(n.clone()),
            Value::Image(s) => Value::Image(s.clone()),
            Value::Bool(b) => Value::Bool(*b),
        }
    }
}

/// The fields of a notification, by name.
pub type Fields = NameMap<Value>;

/// The view of a notification's fields.
pub open spec fn views(fields: Map<Seq<char>, Value>) -> Map<Seq<char>, ValueView> {
    fields.map_values(|v: Value| v@)
}

/// Sets the value of a field.
pub(crate) fn put(fields: &mut Fields, name: &str, v: Value)
    ensures
        views(final(fields)@) == views(old(fields)@).insert(name@, v@),
{
    let ghost view = v@;
    fields.insert(name.to_string(), v);
    assert(views(fields@) =~= views(old(fields)@).insert(name@, view));
}

/// The display text of a value.
pub open spec fn value_text(v: ValueView) -> Seq<char> {
    match v {
        ValueView::Text(s) => s,
        ValueView::Image(s) => s,
        ValueView::Float(n) => n.text,
        ValueView::Bool(b) => if b {
            "true"@
        } else {
            "false"@
        },
    }
}

/// The scalar that a value stands for, given what texts read as.
pub open spec fn value_float(v: ValueView, table: Readings) -> NumberView {
    match v {
        ValueView::Float(n) => n,
        ValueView::Bool(b) => if b {
            number::one()
        } else {
            number::zero()
        },
        ValueView::Text(s) => number::reading(table, s),
        ValueView::Image(_) => number::zero(),
    }
}

impl Value {
    /// The value as display text.
    pub fn as_text(&self) -> (r: String)
        ensures
            r@ == value_text(self@),
    {
        match self {
            Value::Text(s) => s.clone(),
            Value::Image(s) => s.clone(),
            Value::Float(n) => n.text.clone(),
            Value::Bool(b) => if *b {
                "true".to_string()
            } else {
                "false".to_string()
            },
        }
    }

    /// The value as a scalar. Text stands for what it reads as, 0 when it is no number; an image
    /// stands for 0.
    pub fn as_float(&self, table: &Readings) -> (r: Number)
        ensures
            r@ == value_float(self@, *table),
    {
        match self {
            Value::Float(n) => n.clone(),
            Value::Bool(b) => if *b {
                Number::one()
            } else {
                Number::zero()
            },
            Value::Text(s) => number::read_number(table, s.as_str()),
            Value::Image(_) => Number::zero(),
        }
    }
}

/// How a primitive sources its content. In a type file it is a bare text (or scalar) parsed by a
/// small grammar:
/// - a leading `=` (or a number or bool scalar) makes a [`Binding::Literal`], e.g. `"=Sale ends"`;
/// - a `{` makes a [`Binding::Format`], e.g. `"{artist} - {title}"`;
/// - a bare identifier makes a [`Binding::FieldRef`], e.g. `art`, `status`, `position`.
///
/// The `=` sigil tells a constant text from a field reference. `\=` escapes a literal that
/// genuinely starts with `=`.
#[derive(Debug, PartialEq, Eq)]
pub enum Binding {
    /// Interpolates `{field}` tokens from the fields.
    Format(String),
    /// A bare field name: stands for that field's value.
    FieldRef(String),
    /// A constant baked into the type definition.
    Literal(Value),
}

/// The view of a [`Binding`].
pub enum BindingView {
    Format(Seq<char>),
    FieldRef(Seq<char>),
    Literal(ValueView),
}

impl View for Binding {
    type V = BindingView;

    open spec fn view(&self) -> BindingView {
        match *self {
            Binding::Format(s) => BindingView::Format(s@),
            Binding::FieldRef(s) => BindingView::FieldRef(s@),
            Binding::Literal(v) => BindingView::Literal(v@),
        }
    }
}

impl Clone for Binding {
    fn clone(&self) -> (r: Self)
        ensures
            r == *self,
    {
        match self {
            Binding::Format(s) => Binding::Format(s.clone()),
            Binding::FieldRef(s) => Binding::FieldRef(s.clone()),
            Binding::Literal(v) => Binding::Literal(v.clone()),
        }
    }
}

/// Whether `c` may start an identifier: an ASCII letter or `_`.
pub open spec fn starts_identifier(c: char) -> bool {
    ('a' <= c && c <= 'z') || ('A' <= c && c <= 'Z') || c == '_'
}

/// Whether `s` is an identifier: a letter or `_`, then letters, digits and `_`, all ASCII.
pub open spec fn identifier_spec(s: Seq<char>) -> bool {
    &&& s.len() > 0
    &&& starts_identifier(s[0])
    &&& forall|i: int|
        0 < i < s.len() ==> starts_identifier(#[trigger] s[i]) || text::is_digit(s[i])
}

/// Whether `s` is an ASCII identifier.
pub fn is_identifier(s: &str) -> (r: bool)
    ensures
        r == identifier_spec(s@),
{
    let cs = text::chars_of(s);
    if cs.len() == 0 {
        return false;
    }
    let first = cs[0];
    if !(('a' <= first && first <= 'z') || ('A' <= first && first <= 'Z') || first == '_') {
        return false;
    }
    let mut i: usize = 1;
    while i < cs.len()
        invariant
            cs@ == s@,
            1 <= i <= cs@.len(),
            forall|j: int|
                0 < j < i ==> starts_identifier(#[trigger] s@[j]) || text::is_digit(s@[j]),
        decreases cs@.len() - i,
    {
        let c = cs[i];
        if !(('a' <= c && c <= 'z') || ('A' <= c && c <= 'Z') || c == '_' || ('0' <= c && c
            <= '9')) {
            assert(!starts_identifier(s@[i as int]) && !text::is_digit(s@[i as int]));
            return false;
        }
        i = i + 1;
    }
    true
}

/// What a bare text of a type file binds to.
pub open spec fn parse_spec(s: Seq<char>) -> BindingView {
    if s.len() > 0 && s[0] == '=' {
        BindingView::Literal(ValueView::Text(s.skip(1)))
    } else if s.len() > 1 && s[0] == '\\' && s[1] == '=' {
        BindingView::Literal(ValueView::Text(s.skip(1)))
    } else if s.contains('{') {
        BindingView::Format(s)
    } else if identifier_spec(s) {
        BindingView::FieldRef(s)
    } else {
        BindingView::Literal(ValueView::Text(s))
    }
}

/// The display text of the field `name`, empty when there is none.
pub open spec fn lookup_text(fields: Map<Seq<char>, ValueView>, name: Seq<char>) -> Seq<char> {
    if fields.contains_key(name) {
        value_text(fields[name])
    } else {
        Seq::empty()
    }
}

/// `fmt` with every `{name}` replaced by that field's display text. A `{` that no `}` follows
/// stands as it is, with all that comes after it.
pub open spec fn interpolate_spec(fmt: Seq<char>, fields: Map<Seq<char>, ValueView>) -> Seq<char>
    decreases fmt.len(),
{
    let open = text::find_from(fmt, '{', 0);
    let close = text::find_from(fmt, '}', open);
    if 0 <= open < close < fmt.len() {
        fmt.take(open) + lookup_text(fields, fmt.subrange(open + 1, close)) + interpolate_spec(
            fmt.skip(close + 1),
            fields,
        )
    } else {
        fmt
    }
}

proof fn lemma_find_skip(s: Seq<char>, c: char, p: int, i: int)
    requires
        0 <= p <= s.len(),
        0 <= i <= s.len() - p,
    ensures
        text::find_from(s.skip(p), c, i) == text::find_from(s, c, p + i) - p,
    decreases s.len() - p - i,
{
    if i < s.len() - p && s[p + i] != c {
        lemma_find_skip(s, c, p, i + 1);
    }
}

/// Replaces every `{name}` token of `fmt` by that field's display text.
pub fn interpolate(fmt: &str, values: &Fields) -> (r: String)
    ensures
        r@ == interpolate_spec(fmt@, views(values@)),
{
    let cs = text::chars_of(fmt);
    let ghost fields = views(values@);
    let mut out = String::new();
    let mut pos: usize = 0;
    assert(cs@.skip(0) =~= fmt@);
    assert(out@ + interpolate_spec(cs@.skip(0), fields) =~= interpolate_spec(fmt@, fields));
    while pos < cs.len()
        invariant
            cs@ == fmt@,
            fields == views(values@),
            pos <= cs@.len(),
            out@ + interpolate_spec(cs@.skip(pos as int), fields) == interpolate_spec(fmt@, fields),
        decreases cs@.len() - pos,
    {
        let ghost rest = cs@.skip(pos as int);
        let ghost before = out@;
        let open = text::find_char(&cs, '{', pos);
        let close = text::find_char(&cs, '}', open);
        proof {
            lemma_find_skip(cs@, '{', pos as int, 0);
            lemma_find_skip(cs@, '}', pos as int, open - pos);
            text::lemma_find_from(cs@, '}', open as int);
        }
        let head = text::text_of(&cs, pos, open);
        if open < cs.len() && close < cs.len() {
            assert(open < close);
            out.append(head.as_str());
            let key = text::text_of(&cs, open + 1, close);
            if let Some(v) = values.get(key.as_str()) {
                out.append(v.as_text().as_str());
            }
            proof {
                assert(key@ =~= rest.subrange(open - pos + 1, close - pos));
                assert(head@ =~= rest.take(open - pos));
                assert(rest.skip(close - pos + 1) =~= cs@.skip(close + 1));
                assert(out@ =~= before + rest.take(open - pos) + lookup_text(fields, key@));
                assert(out@ + interpolate_spec(cs@.skip(close + 1), fields) =~= before
                    + interpolate_spec(rest, fields));
            }
            pos = close + 1;
        } else {
            let tail = text::text_of(&cs, pos, cs.len());
            out.append(tail.as_str());
            assert(tail@ =~= rest);
            return out;
        }
    }
    assert(cs@.skip(pos as int) =~= Seq::empty());
    assert(out@ =~= out@ + interpolate_spec(cs@.skip(pos as int), fields));
    out
}

/// The display text that a binding stands for.
pub open spec fn resolve_text_spec(
    b: BindingView,
    fields: Map<Seq<char>, ValueView>,
) -> Seq<char> {
    match b {
        BindingView::Literal(v) => value_text(v),
        BindingView::Format(fmt) => interpolate_spec(fmt, fields),
        BindingView::FieldRef(name) => lookup_text(fields, name),
    }
}

/// The scalar that a binding stands for: 0 for a missing field and for a text that is no number.
pub open spec fn resolve_float_spec(
    b: BindingView,
    fields: Map<Seq<char>, ValueView>,
    table: Readings,
) -> NumberView {
    match b {
        BindingView::Literal(v) => value_float(v, table),
        BindingView::FieldRef(name) => if fields.contains_key(name) {
            value_float(fields[name], table)
        } else {
            number::zero()
        },
        BindingView::Format(fmt) => number::reading(table, interpolate_spec(fmt, fields)),
    }
}

/// The image handle that a binding stands for: none for a missing field and for a format that
/// comes out empty.
pub open spec fn resolve_image_spec(
    b: BindingView,
    fields: Map<Seq<char>, ValueView>,
) -> Option<Seq<char>> {
    match b {
        BindingView::Literal(v) => Some(value_text(v)),
        BindingView::FieldRef(name) => if fields.contains_key(name) {
            Some(value_text(fields[name]))
        } else {
            None
        },
        BindingView::Format(fmt) => if interpolate_spec(fmt, fields).len() > 0 {
            Some(interpolate_spec(fmt, fields))
        } else {
            None
        },
    }
}

/// The value that a binding stands for, none for a missing field.
pub open spec fn resolve_value_spec(
    b: BindingView,
    fields: Map<Seq<char>, ValueView>,
) -> Option<ValueView> {
    match b {
        BindingView::Literal(v) => Some(v),
        BindingView::FieldRef(name) => if fields.contains_key(name) {
            Some(fields[name])
        } else {
            None
        },
        BindingView::Format(fmt) => Some(ValueView::Text(interpolate_spec(fmt, fields))),
    }
}

/// The text whose reading decides [`Binding::resolve_float`], if there is one.
pub open spec fn float_text_spec(
    b: BindingView,
    fields: Map<Seq<char>, ValueView>,
) -> Option<Seq<char>> {
    match resolve_value_spec(b, fields) {
        Some(ValueView::Text(s)) => Some(s),
        _ => None,
    }
}

impl Binding {
    /// Applies the grammar to a bare text.
    pub fn parse_str(s: &str) -> (r: Binding)
        ensures
            r@ == parse_spec(s@),
    {
        proof {
            reveal_strlit("=");
            reveal_strlit("\\=");
        }
        if let Some(rest) = text::strip_prefix(s, "=") {
            assert("="@[0] == s@[0]);
            return Binding::Literal(Value::Text(rest.to_string()));
        }
        proof {
            if s@.len() > 0 && s@[0] == '=' {
                assert("="@ =~= s@.subrange(0, 1));
                assert("="@.is_prefix_of(s@));
            }
        }
        if let Some(rest) = text::strip_prefix(s, "\\=") {
            proof {
                assert("\\="@[0] == s@[0] && "\\="@[1] == s@[1]);
                assert("="@ + rest@ =~= s@.skip(1));
            }
            return Binding::Literal(Value::Text(text::concat("=", rest)));
        }
        proof {
            if s@.len() > 1 && s@[0] == '\\' && s@[1] == '=' {
                assert("\\="@ =~= s@.subrange(0, 2));
                assert("\\="@.is_prefix_of(s@));
            }
        }
        if text::contains_char(s, '{') {
            Binding::Format(s.to_string())
        } else if is_identifier(s) {
            Binding::FieldRef(s.to_string())
        } else {
            Binding::Literal(Value::Text(s.to_string()))
        }
    }

    /// Resolves to display text. Missing fields resolve to the empty text.
    pub fn resolve_text(&self, values: &Fields) -> (r: String)
        ensures
            r@ == resolve_text_spec(self@, views(values@)),
    {
        match self {
            Binding::Literal(v) => v.as_text(),
            Binding::Format(fmt) => interpolate(fmt.as_str(), values),
            Binding::FieldRef(name) => match values.get(name.as_str()) {
                Some(v) => v.as_text(),
                None => String::new(),
            },
        }
    }

    /// Resolves to a scalar. What is missing or no number resolves to 0.
    pub fn resolve_float(&self, values: &Fields, table: &Readings) -> (r: Number)
        ensures
            r@ == resolve_float_spec(self@, views(values@), *table),
    {
        match self {
            Binding::Literal(v) => v.as_float(table),
            Binding::FieldRef(name) => match values.get(name.as_str()) {
                Some(v) => v.as_float(table),
                None => Number::zero(),
            },
            Binding::Format(fmt) => number::read_number(
                table,
                interpolate(fmt.as_str(), values).as_str(),
            ),
        }
    }

    /// Resolves to an image handle. `None` when the referenced field is absent, so that the
    /// renderer can skip the image leaf entirely.
    pub fn resolve_image(&self, values: &Fields) -> (r: Option<String>)
        ensures
            text::opt_text(r) == resolve_image_spec(self@, views(values@)),
    {
        match self {
            Binding::Literal(v) => Some(v.as_text()),
            Binding::FieldRef(name) => match values.get(name.as_str()) {
                Some(v) => Some(v.as_text()),
                None => None,
            },
            Binding::Format(fmt) => {
                let s = interpolate(fmt.as_str(), values);
                if s.as_str().unicode_len() > 0 {
                    Some(s)
                } else {
                    None
                }
            },
        }
    }

    /// Borrows the referenced value, if any.
    pub fn resolve_value<'a>(&'a self, values: &'a Fields) -> (r: Option<Cow<'a, Value>>)
        ensures
            (match r {
                Some(c) => Some(c@),
                None => None,
            }) == resolve_value_spec(self@, views(values@)),
    {
        match self {
            Binding::Literal(v) => Some(Cow::Borrowed(v)),
            Binding::FieldRef(name) => match values.get(name.as_str()) {
                Some(v) => Some(Cow::Borrowed(v)),
                None => None,
            },
            Binding::Format(fmt) => Some(
                Cow::Owned(Value::Text(interpolate(fmt.as_str(), values))),
            ),
        }
    }

    /// The text whose reading [`Binding::resolve_float`] looks up, if it looks one up.
    pub fn float_text(&self, values: &Fields) -> (r: Option<String>)
        ensures
            text::opt_text(r) == float_text_spec(self@, views(values@)),
    {
        match self {
            Binding::Literal(Value::Text(s)) => Some(s.clone()),
            Binding::FieldRef(name) => match values.get(name.as_str()) {
                Some(Value::Text(s)) => Some(s.clone()),
                _ => None,
            },
            Binding::Format(fmt) => Some(interpolate(fmt.as_str(), values)),
            _ => None,
        }
    }
}

/// A scalar of a type file.
#[derive(Debug, PartialEq, Eq)]
pub enum Scalar {
    Text(String),
    Number(Number),
    Bool(bool),
}

/// The view of a [`Scalar`].
pub enum ScalarView {
    Text(Seq<char>),
    Number(NumberView),
    Bool(bool),
}

impl View for Scalar {
    type V = ScalarView;

    open spec fn view(&self) -> ScalarView {
        match *self {
            Scalar::Text(s) => ScalarView::Text(s@),
            Scalar::Number(n) => ScalarView::Number(n@),
            Scalar::Bool(b) => ScalarView::Bool(b),
        }
    }
}

/// What a scalar of a type file binds to.
pub open spec fn from_scalar_spec(s: ScalarView) -> BindingView {
    match s {
        ScalarView::Text(t) => parse_spec(t),
        ScalarView::Number(n) => BindingView::Literal(ValueView::Float(n)),
        ScalarView::Bool(b) => BindingView::Literal(ValueView::Bool(b)),
    }
}

/// The scalar that a binding is written as. Constant texts carry the `=` sigil.
pub open spec fn to_scalar_spec(b: BindingView) -> ScalarView {
    match b {
        BindingView::Format(s) => ScalarView::Text(s),
        BindingView::FieldRef(s) => ScalarView::Text(s),
        BindingView::Literal(ValueView::Float(n)) => ScalarView::Number(n),
        BindingView::Literal(ValueView::Bool(b)) => ScalarView::Bool(b),
        BindingView::Literal(v) => ScalarView::Text(seq!['='] + value_text(v)),
    }
}

impl Binding {
    /// The binding that a scalar of a type file denotes.
    pub fn from_scalar(s: Scalar) -> (r: Binding)
        ensures
            r@ == from_scalar_spec(s@),
    {
        match s {
            Scalar::Text(t) => Binding::parse_str(t.as_str()),
            Scalar::Number(n) => Binding::Literal(Value::Float(n)),
            Scalar::Bool(b) => Binding::Literal(Value::Bool(b)),
        }
    }

    /// The scalar to write for this binding. Constant texts get the `=` sigil, so that they read
    /// back as constants.
    pub fn to_scalar(&self) -> (r: Scalar)
        ensures
            r@ == to_scalar_spec(self@),
    {
        proof {
            reveal_strlit("=");
            assert("="@ =~= seq!['=']);
        }
        match self {
            Binding::Format(s) => Scalar::Text(s.clone()),
            Binding::FieldRef(s) => Scalar::Text(s.clone()),
            Binding::Literal(Value::Float(n)) => Scalar::Number(n.clone()),
            Binding::Literal(Value::Bool(b)) => Scalar::Bool(*b),
            Binding::Literal(v) => Scalar::Text(text::concat("=", v.as_text().as_str())),
        }
    }
}

/// A binding read from a scalar is read back unchanged from the scalar that it is written as.
pub proof fn binding_round_trips(s: ScalarView)
    ensures
        from_scalar_spec(to_scalar_spec(from_scalar_spec(s))) == from_scalar_spec(s),
{
    match from_scalar_spec(s) {
        BindingView::Literal(ValueView::Text(t)) => {
            assert((seq!['='] + t).skip(1) =~= t);
        },
        _ => {},
    }
}

/// A text without a `{` is its own interpolation.
pub proof fn interpolation_keeps_plain_text(fmt: Seq<char>, fields: Map<Seq<char>, ValueView>)
    requires
        !fmt.contains('{'),
    ensures
        interpolate_spec(fmt, fields) == fmt,
{
    text::lemma_find_from(fmt, '{', 0);
    assert(text::find_from(fmt, '{', 0) == fmt.len());
}

/// The first `{name}` of a text is replaced by that field's display text, by nothing when the
/// field is missing; what precedes it stands, and what follows it is interpolated in turn.
pub proof fn interpolation_replaces_tokens(
    pre: Seq<char>,
    name: Seq<char>,
    post: Seq<char>,
    fields: Map<Seq<char>, ValueView>,
)
    requires
        !pre.contains('{'),
        !name.contains('}'),
    ensures
        interpolate_spec(pre + seq!['{'] + name + seq!['}'] + post, fields) == pre + lookup_text(
            fields,
            name,
        ) + interpolate_spec(post, fields),
{
    let fmt = pre + seq!['{'] + name + seq!['}'] + post;
    let open = pre.len() as int;
    let close = open + 1 + name.len();
    text::lemma_find_from(fmt, '{', 0);
    assert(fmt[open] == '{');
    assert(forall|i: int| 0 <= i < open ==> fmt[i] == pre[i]);
    assert(text::find_from(fmt, '{', 0) == open) by {
        let f = text::find_from(fmt, '{', 0);
        if f < open {
            assert(pre[f] == '{');
        }
    }
    text::lemma_find_from(fmt, '}', open);
    assert(fmt[close] == '}');
    assert(text::find_from(fmt, '}', open) == close) by {
        let f = text::find_from(fmt, '}', open);
        if open < f < close {
            assert(fmt[f] == name[f - open - 1]);
        }
    }
    assert(fmt.take(open) =~= pre);
    assert(fmt.subrange(open + 1, close) =~= name);
    assert(fmt.skip(close + 1) =~= post);
}

// ---- what a value and a binding come to --------------------------------------------------

/// Whether `t` is how a value reads: a text and an image handle as they are, a number by its
/// digits, a switch as `true` or `false`.
pub open spec fn says(v: ValueView, t: Seq<char>) -> bool {
    match v {
        ValueView::Text(s) => t == s,
        ValueView::Image(s) => t == s,
        ValueView::Float(n) => t == n.text,
        ValueView::Bool(true) => t == "true"@,
        ValueView::Bool(false) => t == "false"@,
    }
}

/// Whether `n` is what a value counts as: a number as itself, a switch as 1 or 0, a text as the
/// number it reads as. A text that is no number counts as 0, and so does an image.
pub open spec fn counts_as(v: ValueView, table: Readings, n: NumberView) -> bool {
    match v {
        ValueView::Float(m) => n == m,
        ValueView::Bool(true) => n.bits == 0x3FF0_0000_0000_0000 && n.text == seq!['1'],
        ValueView::Text(s) if table@.contains_key(s) => n == table@[s]@,
        _ => n.bits == 0 && n.text == seq!['0'],
    }
}

/// Every value has one text and one number: those that it reads as and counts as.
pub proof fn values_read_and_count(v: ValueView, table: Readings)
    ensures
        says(v, value_text(v)),
        counts_as(v, table, value_float(v, table)),
{
}

/// A field reference stands for the field's own value, and for nothing when the field is missing:
/// an empty text, 0, no image.
pub proof fn references_give_the_field(
    name: Seq<char>,
    fields: Map<Seq<char>, ValueView>,
    table: Readings,
)
    ensures
        ({
            let b = BindingView::FieldRef(name);
            let image = resolve_image_spec(b, fields);
            &&& fields.contains_key(name) ==> {
                &&& says(fields[name], resolve_text_spec(b, fields))
                &&& counts_as(fields[name], table, resolve_float_spec(b, fields, table))
                &&& image is Some && says(fields[name], image->0)
                &&& resolve_value_spec(b, fields) == Some(fields[name])
            }
            &&& !fields.contains_key(name) ==> {
                &&& resolve_text_spec(b, fields).len() == 0
                &&& resolve_float_spec(b, fields, table).bits == 0
                &&& image is None
                &&& resolve_value_spec(b, fields) is None
            }
        }),
{
}

/// A constant stands for itself, whatever the fields hold.
pub proof fn constants_give_themselves(
    v: ValueView,
    fields: Map<Seq<char>, ValueView>,
    table: Readings,
)
    ensures
        ({
            let b = BindingView::Literal(v);
            let image = resolve_image_spec(b, fields);
            &&& says(v, resolve_text_spec(b, fields))
            &&& counts_as(v, table, resolve_float_spec(b, fields, table))
            &&& image is Some && says(v, image->0)
            &&& resolve_value_spec(b, fields) == Some(v)
        }),
{
}

/// A format stands for one interpolated text: as a text, as the number that it reads as (0 when it
/// is none), and as an image handle unless it is empty.
pub proof fn formats_give_one_text(
    fmt: Seq<char>,
    fields: Map<Seq<char>, ValueView>,
    table: Readings,
)
    ensures
        ({
            let b = BindingView::Format(fmt);
            let t = interpolate_spec(fmt, fields);
            &&& resolve_text_spec(b, fields) == t
            &&& counts_as(ValueView::Text(t), table, resolve_float_spec(b, fields, table))
            &&& resolve_image_spec(b, fields) == (if t.len() > 0 {
                Some(t)
            } else {
                None
            })
            &&& resolve_value_spec(b, fields) == Some(ValueView::Text(t))
        }),
{
}

/// A token gives way to how the field of its name reads, and to nothing when there is no such
/// field. What stands before it stays, and what stands after it is interpolated in turn.
pub proof fn tokens_give_way_to_fields(
    pre: Seq<char>,
    name: Seq<char>,
    post: Seq<char>,
    fields: Map<Seq<char>, ValueView>,
    t: Seq<char>,
)
    requires
        !pre.contains('{'),
        !name.contains('}'),
        fields.contains_key(name) ==> says(fields[name], t),
        !fields.contains_key(name) ==> t.len() == 0,
    ensures
        interpolate_spec(pre + seq!['{'] + name + seq!['}'] + post, fields) == pre + t
            + interpolate_spec(post, fields),
{
    interpolation_replaces_tokens(pre, name, post, fields);
    assert(lookup_text(fields, name) =~= t);
}

/// A brace that is never closed stands as it is, with all that follows it.
pub proof fn open_braces_stand(
    pre: Seq<char>,
    post: Seq<char>,
    fields: Map<Seq<char>, ValueView>,
)
    requires
        !pre.contains('{'),
        !post.contains('}'),
    ensures
        interpolate_spec(pre + seq!['{'] + post, fields) == pre + seq!['{'] + post,
{
    let fmt = pre + seq!['{'] + post;
    let open = pre.len() as int;
    text::lemma_find_from(fmt, '{', 0);
    assert(fmt[open] == '{');
    assert(text::find_from(fmt, '{', 0) == open) by {
        let f = text::find_from(fmt, '{', 0);
        if f < open {
            assert(pre[f] == fmt[f]);
        }
    }
    text::lemma_find_from(fmt, '}', open);
    let close = text::find_from(fmt, '}', open);
    if close < fmt.len() {
        assert(close > open);
        assert(fmt[close] == post[close - open - 1]);
    }
}

/// A leading `=` makes a constant of the rest; a leading `\=` makes a constant that starts with the
/// `=`.
pub proof fn sigils_make_constants(t: Seq<char>)
    ensures
        parse_spec(seq!['='] + t) == BindingView::Literal(ValueView::Text(t)),
        parse_spec(seq!['\\', '='] + t) == BindingView::Literal(ValueView::Text(seq!['='] + t)),
{
    assert((seq!['='] + t).skip(1) =~= t);
    assert((seq!['\\', '='] + t).skip(1) =~= seq!['='] + t);
}

/// A text without a leading `=` or `\=` is a format when it holds a `{`; else the name of a field
/// when it is made of ASCII letters, digits and `_` and starts with no digit; else a constant.
pub proof fn bare_texts_are_told_apart(s: Seq<char>)
    requires
        s.len() > 0 ==> s[0] != '=',
        s.len() > 1 ==> !(s[0] == '\\' && s[1] == '='),
    ensures
        s.contains('{') ==> parse_spec(s) == BindingView::Format(s),
        !s.contains('{') && s.len() > 0 && !('0' <= s[0] <= '9') && (forall|i: int|
            0 <= i < s.len() ==> ('a' <= #[trigger] s[i] <= 'z') || ('A' <= s[i] <= 'Z') || ('0'
                <= s[i] <= '9') || s[i] == '_') ==> parse_spec(s) == BindingView::FieldRef(s),
        !s.contains('{') && (s.len() == 0 || ('0' <= s[0] <= '9') || (exists|i: int|
            0 <= i < s.len() && !(('a' <= #[trigger] s[i] <= 'z') || ('A' <= s[i] <= 'Z') || ('0'
                <= s[i] <= '9') || s[i] == '_'))) ==> parse_spec(s) == BindingView::Literal(
            ValueView::Text(s),
        ),
{
    if s.len() > 0 && exists|i: int|
        0 <= i < s.len() && !(('a' <= #[trigger] s[i] <= 'z') || ('A' <= s[i] <= 'Z') || ('0'
            <= s[i] <= '9') || s[i] == '_') {
        let i = choose|i: int|
            0 <= i < s.len() && !(('a' <= #[trigger] s[i] <= 'z') || ('A' <= s[i] <= 'Z') || ('0'
                <= s[i] <= '9') || s[i] == '_');
        assert(!starts_identifier(s[i]) && !text::is_digit(s[i]));
        assert(!identifier_spec(s));
    }
}

/// Numbers and switches of a type file are constants.
pub proof fn scalars_make_constants(n: NumberView, b: bool)
    ensures
        from_scalar_spec(ScalarView::Number(n)) == BindingView::Literal(ValueView::Float(n)),
        from_scalar_spec(ScalarView::Bool(b)) == BindingView::Literal(ValueView::Bool(b)),
{
}

/// A text of a type file is read by the grammar of bare texts.
pub proof fn texts_are_read_by_the_grammar(t: Seq<char>)
    ensures
        from_scalar_spec(ScalarView::Text(t)) == parse_spec(t),
{
}

} // verus!
