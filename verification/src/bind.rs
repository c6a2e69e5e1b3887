//! Validates a raw notification's fields against its type schema, applies defaults, coerces kinds
//! and clamps ranges.

use vstd::prelude::*;

use std::sync::Arc;

use crate::binding;
use crate::binding::{Fields, Value, ValueView};
use crate::names::NameMap;
use crate::number;
use crate::number::{NumberView, Readings};
use crate::template;
use crate::template::{FieldKind, FieldSpec, TypeTemplate};
use crate::text;
use crate::{Behavior, CoreError, CoreErrorView, RawNotification};

verus! {

/// A validated, ready-to-render notification: every schema field coerced or defaulted, behavior
/// and replace key resolved, and the template carried along for [`crate::scene::build`].
#[derive(Debug)]
pub struct BoundNotification {
    /// The name of the type it was bound to.
    pub type_key: String,
    pub behavior: Behavior,
    pub replace_key: Option<String>,
    pub fields: Fields,
    pub template: Arc<TypeTemplate>,
}

/// A number confined to the inclusive bounds that are set.
pub open spec fn clamp_spec(f: NumberView, spec: FieldSpec) -> NumberView {
    let low = match spec.min {
        Some(m) => number::max_spec(f, m@),
        None => f,
    };
    match spec.max {
        Some(m) => number::min_spec(low, m@),
        None => low,
    }
}

/// A value coerced to a field's declared kind; none when it is invalid for that kind.
pub open spec fn coerce_spec(v: ValueView, spec: FieldSpec, table: Readings) -> Option<ValueView> {
    match spec.kind {
        FieldKind::String => Some(ValueView::Text(binding::value_text(v))),
        FieldKind::Icon => Some(ValueView::Text(binding::value_text(v))),
        FieldKind::Image => Some(ValueView::Image(binding::value_text(v))),
        FieldKind::Bool => Some(
            match v {
                ValueView::Bool(b) => ValueView::Bool(b),
                _ => ValueView::Bool(
                    binding::value_text(v) == "true"@ || binding::value_text(v) == "1"@,
                ),
            },
        ),
        FieldKind::Float => Some(
            ValueView::Float(clamp_spec(binding::value_float(v, table), spec)),
        ),
        FieldKind::Enum => if spec.values@.len() == 0 || text::texts(spec.values@).contains(
            binding::value_text(v),
        ) {
            Some(ValueView::Text(binding::value_text(v)))
        } else {
            None
        },
    }
}

/// The default of a field, coerced to its kind.
pub open spec fn default_spec(spec: FieldSpec, table: Readings) -> Option<ValueView> {
    match spec.default {
        Some(d) => coerce_spec(d@, spec, table),
        None => None,
    }
}

/// What a declared field holds once bound: the supplied value when it is valid, else the default
/// when there is a valid one, else nothing.
pub open spec fn field_value(
    spec: FieldSpec,
    supplied: Option<ValueView>,
    table: Readings,
) -> Option<ValueView> {
    match supplied {
        Some(v) => match coerce_spec(v, spec, table) {
            Some(c) => Some(c),
            None => default_spec(spec, table),
        },
        None => default_spec(spec, table),
    }
}

/// The value that a source supplied for a field.
pub open spec fn supplied(raw: Map<Seq<char>, ValueView>, name: Seq<char>) -> Option<ValueView> {
    if raw.contains_key(name) {
        Some(raw[name])
    } else {
        None
    }
}

/// What the `i`-th declared field holds once bound.
pub open spec fn declared_value(
    schema: Seq<(Seq<char>, FieldSpec)>,
    i: int,
    raw: Map<Seq<char>, ValueView>,
    table: Readings,
) -> Option<ValueView> {
    field_value(schema[i].1, supplied(raw, schema[i].0), table)
}

/// Whether the `i`-th declared field is required and nothing valid is there for it.
pub open spec fn is_missing(
    schema: Seq<(Seq<char>, FieldSpec)>,
    i: int,
    raw: Map<Seq<char>, ValueView>,
    table: Readings,
) -> bool {
    schema[i].1.required && declared_value(schema, i, raw, table) is None
}

/// Whether `name` is the first declared field that is missing.
pub open spec fn first_missing(
    schema: Seq<(Seq<char>, FieldSpec)>,
    raw: Map<Seq<char>, ValueView>,
    table: Readings,
    name: Seq<char>,
) -> bool {
    exists|i: int|
        {
            &&& 0 <= i < schema.len()
            &&& (#[trigger] schema[i]).0 == name
            &&& is_missing(schema, i, raw, table)
            &&& forall|j: int| 0 <= j < i ==> !#[trigger] is_missing(schema, j, raw, table)
        }
}

/// Whether nothing that the schema requires is missing.
pub open spec fn complete(
    schema: Seq<(Seq<char>, FieldSpec)>,
    raw: Map<Seq<char>, ValueView>,
    table: Readings,
) -> bool {
    forall|j: int| 0 <= j < schema.len() ==> !#[trigger] is_missing(schema, j, raw, table)
}

/// The position at which `name` is declared.
pub open spec fn position(schema: Seq<(Seq<char>, FieldSpec)>, name: Seq<char>) -> int {
    choose|i: int| 0 <= i < schema.len() && (#[trigger] schema[i]).0 == name
}

/// What `name` holds once bound. Fields that the schema does not declare are passed through
/// unchanged.
pub open spec fn bound_value(
    schema: Seq<(Seq<char>, FieldSpec)>,
    raw: Map<Seq<char>, ValueView>,
    table: Readings,
    name: Seq<char>,
) -> Option<ValueView> {
    if template::declares(schema, name) {
        declared_value(schema, position(schema, name), raw, table)
    } else {
        supplied(raw, name)
    }
}

/// All fields of a notification once bound.
pub open spec fn bound_fields(
    schema: Seq<(Seq<char>, FieldSpec)>,
    raw: Map<Seq<char>, ValueView>,
    table: Readings,
) -> Map<Seq<char>, ValueView> {
    Map::new(
        |k: Seq<char>| bound_value(schema, raw, table, k) is Some,
        |k: Seq<char>| bound_value(schema, raw, table, k)->0,
    )
}

/// Coerces a value to the field's declared kind; `None` when the value is invalid for that kind
/// (an out-of-set enum, say). Floats are clamped to `[min, max]`.
pub fn coerce(v: &Value, spec: &FieldSpec, table: &Readings) -> (r: Option<Value>)
    ensures
        (match r {
            Some(c) => Some(c@),
            None => None,
        }) == coerce_spec(v@, *spec, *table),
{
    match spec.kind {
        FieldKind::String => Some(Value::Text(v.as_text())),
        FieldKind::Icon => Some(Value::Text(v.as_text())),
        FieldKind::Image => Some(Value::Image(v.as_text())),
        FieldKind::Bool => match v {
            Value::Bool(b) => Some(Value::Bool(*b)),
            _ => {
                let t = v.as_text();
                Some(Value::Bool(text::same(t.as_str(), "true") || text::same(t.as_str(), "1")))
            },
        },
        FieldKind::Float => {
            let mut f = v.as_float(table);
            if let Some(min) = &spec.min {
                f = f.max(min);
            }
            if let Some(max) = &spec.max {
                f = f.min(max);
            }
            Some(Value::Float(f))
        },
        FieldKind::Enum => {
            let t = v.as_text();
            if spec.values.len() == 0 || text::contains_text(&spec.values, t.as_str()) {
                Some(Value::Text(t))
            } else {
                None
            }
        },
    }
}

fn coerce_default(spec: &FieldSpec, table: &Readings) -> (r: Option<Value>)
    ensures
        (match r {
            Some(c) => Some(c@),
            None => None,
        }) == default_spec(*spec, *table),
{
    match &spec.default {
        Some(d) => coerce(d, spec, table),
        None => None,
    }
}

fn bind_field(spec: &FieldSpec, given: Option<&Value>, table: &Readings) -> (r: Option<Value>)
    ensures
        (match r {
            Some(c) => Some(c@),
            None => None,
        }) == field_value(
            *spec,
            match given {
                Some(v) => Some(v@),
                None => None,
            },
            *table,
        ),
{
    match given {
        Some(v) => match coerce(v, spec, table) {
            Some(c) => Some(c),
            None => coerce_default(spec, table),
        },
        None => coerce_default(spec, table),
    }
}

/// Binds the fields of a notification to a template's schema. The error is the name of the first
/// required field that is missing.
pub fn bind_fields(template: &TypeTemplate, raw: &Fields, table: &Readings) -> (r: Result<
    Fields,
    String,
>)
    ensures
        match r {
            Ok(f) => {
                &&& complete(template.schema(), binding::views(raw@), *table)
                &&& binding::views(f@) == bound_fields(
                    template.schema(),
                    binding::views(raw@),
                    *table,
                )
            },
            Err(name) => first_missing(
                template.schema(),
                binding::views(raw@),
                *table,
                name@,
            ),
        },
{
    let ghost schema = template.schema();
    let ghost given = binding::views(raw@);
    let mut fields: Fields = NameMap::new();
    let n = template::schema_len(&template.fields);
    let mut i: usize = 0;
    while i < n
        invariant
            n == schema.len(),
            schema == template.schema(),
            given == binding::views(raw@),
            i <= n,
            forall|a: int, b: int|
                0 <= a < b < i ==> (#[trigger] schema[a]).0 != (#[trigger] schema[b]).0,
            forall|j: int| 0 <= j < i ==> !#[trigger] is_missing(schema, j, given, *table),
            forall|j: int|
                0 <= j < i ==> {
                    &&& fields@.contains_key((#[trigger] schema[j]).0) <==> declared_value(
                        schema,
                        j,
                        given,
                        *table,
                    ) is Some
                    &&& fields@.contains_key(schema[j].0) ==> fields@[schema[j].0]@
                        == declared_value(schema, j, given, *table)->0
                },
            forall|k: Seq<char>| #[trigger]
                fields@.contains_key(k) ==> exists|j: int|
                    0 <= j < i && (#[trigger] schema[j]).0 == k,
        decreases n - i,
    {
        let ghost before = fields@;
        match template::schema_entry(&template.fields, i) {
            Some((name, spec)) => {
                let given_value = raw.get(name.as_str());
                proof {
                    assert(schema[i as int] == (name@, *spec));
                    assert(!before.contains_key(name@)) by {
                        if before.contains_key(name@) {
                            let j = choose|j: int| 0 <= j < i && (#[trigger] schema[j]).0 == name@;
                            assert(schema[j].0 != name@);
                        }
                    }
                }
                match bind_field(spec, given_value, table) {
                    Some(v) => {
                        let ghost bound = v@;
                        fields.insert(name.clone(), v);
                        proof {
                            assert(declared_value(schema, i as int, given, *table) == Some(bound));
                            assert(fields@[name@]@ == bound);
                        }
                    },
                    None => {
                        assert(declared_value(schema, i as int, given, *table) is None);
                        if spec.required {
                            assert(is_missing(schema, i as int, given, *table));
                            return Err(name.clone());
                        }
                    },
                }
                proof {
                    assert forall|j: int| 0 <= j < i + 1 implies {
                        &&& fields@.contains_key((#[trigger] schema[j]).0) <==> declared_value(
                            schema,
                            j,
                            given,
                            *table,
                        ) is Some
                        &&& fields@.contains_key(schema[j].0) ==> fields@[schema[j].0]@
                            == declared_value(schema, j, given, *table)->0
                    } by {
                        if j < i {
                            assert(schema[j].0 != name@);
                        }
                    }
                    assert forall|k: Seq<char>| #[trigger] fields@.contains_key(k) implies exists|
                        j: int,
                    |
                        0 <= j < i + 1 && (#[trigger] schema[j]).0 == k by {
                        if k != name@ {
                            assert(before.contains_key(k));
                            let j = choose|j: int| 0 <= j < i && (#[trigger] schema[j]).0 == k;
                            assert(schema[j].0 == k);
                        } else {
                            assert(schema[i as int].0 == k);
                        }
                    }
                }
            },
            None => {},
        }
        i = i + 1;
    }
    // Keep fields that the schema does not declare, so that format bindings can refer to them.
    let ghost declared = fields@;
    let m = raw.len();
    let mut j: usize = 0;
    while j < m
        invariant
            m == raw.names().len(),
            schema == template.schema(),
            given == binding::views(raw@),
            j <= m,
            forall|k: Seq<char>| #[trigger]
                declared.contains_key(k) ==> template::declares(schema, k),
            forall|k: Seq<char>| #[trigger]
                fields@.contains_key(k) <==> declared.contains_key(k) || (!template::declares(
                    schema,
                    k,
                ) && exists|a: int| 0 <= a < j && #[trigger] raw.names()[a] == k),
            forall|k: Seq<char>|
                declared.contains_key(k) ==> #[trigger] fields@[k] == declared[k],
            forall|k: Seq<char>|
                #![trigger fields@.contains_key(k)]
                #![trigger fields@[k]]
                fields@.contains_key(k) && !declared.contains_key(k) ==> raw@.contains_key(k)
                    && fields@[k] == raw@[k],
        decreases m - j,
    {
        let ghost before = fields@;
        let (name, v) = raw.entry(j);
        if !template::schema_declares(&template.fields, name.as_str()) {
            fields.insert(name.clone(), v.clone());
        }
        proof {
            assert forall|k: Seq<char>| #[trigger] fields@.contains_key(k) implies
                declared.contains_key(k) || (!template::declares(schema, k) && exists|a: int|
                0 <= a < j + 1 && #[trigger] raw.names()[a] == k) by {
                if k == name@ {
                    assert(raw.names()[j as int] == k);
                } else {
                    assert(before.contains_key(k));
                }
            }
            assert forall|k: Seq<char>|
                declared.contains_key(k) || (!template::declares(schema, k) && exists|a: int|
                    0 <= a < j + 1 && #[trigger] raw.names()[a] == k) implies
                #[trigger] fields@.contains_key(k) by {
                if !declared.contains_key(k) {
                    let a = choose|a: int| 0 <= a < j + 1 && #[trigger] raw.names()[a] == k;
                    if a < j {
                        assert(before.contains_key(k));
                    }
                } else {
                    assert(before.contains_key(k));
                }
            }
            assert forall|k: Seq<char>|
                #![trigger fields@.contains_key(k)]
                #![trigger fields@[k]]
                fields@.contains_key(k) && !declared.contains_key(k) implies raw@.contains_key(k)
                && fields@[k] == raw@[k] by {
                if before.contains_key(k) && k != name@ {
                    assert(before[k] == raw@[k]);
                }
            }
        }
        j = j + 1;
    }
    proof {
        raw.lemma_names();
        let got = binding::views(fields@);
        let want = bound_fields(schema, given, *table);
        assert forall|k: Seq<char>|
            #![trigger got.dom().contains(k)]
            #![trigger want.dom().contains(k)]
            #![trigger got[k]]
            got.contains_key(k) == want.contains_key(k) && (got.contains_key(k) ==> got[k]
                == want[k]) by {
            if template::declares(schema, k) {
                let p = position(schema, k);
                assert(schema[p].0 == k);
                assert(fields@.contains_key(k) == declared.contains_key(k));
                if declared.contains_key(k) {
                    assert(fields@[k] == declared[k]);
                }
            } else {
                assert(raw@.contains_key(k) == raw.names().contains(k));
                assert(given.contains_key(k) == raw@.contains_key(k));
                if raw.names().contains(k) {
                    let a = choose|a: int| 0 <= a < raw.names().len() && raw.names()[a] == k;
                    assert(raw.names()[a] == k);
                    assert(fields@.contains_key(k));
                    assert(fields@[k] == raw@[k]);
                }
                if fields@.contains_key(k) {
                    assert(fields@[k] == raw@[k]);
                }
            }
        }
        assert(got =~= want);
    }
    Ok(fields)
}

/// Validates and coerces `raw` against `template`. The only error is a missing required field;
/// everything else degrades gracefully (defaults, clamps, drops).
pub fn bind(template: Arc<TypeTemplate>, raw: RawNotification, table: &Readings) -> (r: Result<
    BoundNotification,
    CoreError,
>)
    ensures
        match r {
            Ok(b) => {
                &&& complete(template.schema(), binding::views(raw.fields@), *table)
                &&& b.type_key == template.meta.name
                &&& b.behavior == (Behavior {
                    priority: template.meta.priority,
                    timeout_ms: template.meta.timeout_ms,
                })
                &&& b.replace_key == (if raw.replace_key is Some {
                    raw.replace_key
                } else {
                    template.meta.replace_key
                })
                &&& binding::views(b.fields@) == bound_fields(
                    template.schema(),
                    binding::views(raw.fields@),
                    *table,
                )
                &&& b.template == template
            },
            Err(e) => exists|name: Seq<char>|
                {
                    &&& #[trigger] first_missing(
                        template.schema(),
                        binding::views(raw.fields@),
                        *table,
                        name,
                    )
                    &&& e@ == (CoreErrorView::MissingField {
                        ty: template.meta.name@,
                        field: name,
                    })
                },
        },
{
    match bind_fields(&template, &raw.fields, table) {
        Err(name) => Err(CoreError::MissingField { ty: template.meta.name.clone(), field: name }),
        Ok(fields) => {
            let replace_key = match raw.replace_key {
                Some(k) => Some(k),
                None => template.meta.replace_key.clone(),
            };
            let behavior = Behavior {
                priority: template.meta.priority,
                timeout_ms: template.meta.timeout_ms,
            };
            Ok(
                BoundNotification {
                    type_key: template.meta.name.clone(),
                    behavior,
                    replace_key,
                    fields,
                    template,
                },
            )
        },
    }
}

/// Whether binding looks up what the text `t` reads as: `t` is the value or the default of a float
/// field.
pub open spec fn bind_reads(
    schema: Seq<(Seq<char>, FieldSpec)>,
    raw: Map<Seq<char>, ValueView>,
    t: Seq<char>,
) -> bool {
    exists|i: int|
        {
            &&& 0 <= i < schema.len()
            &&& field_reads(#[trigger] schema[i], raw, t)
        }
}

/// Whether binding one declared field looks up what `t` reads as.
pub open spec fn field_reads(
    field: (Seq<char>, FieldSpec),
    raw: Map<Seq<char>, ValueView>,
    t: Seq<char>,
) -> bool {
    &&& field.1.kind == FieldKind::Float
    &&& {
        ||| supplied(raw, field.0) == Some(ValueView::Text(t))
        ||| field.1.default is Some && field.1.default->0@ == ValueView::Text(t)
    }
}

/// The texts whose readings [`bind`] looks up.
pub fn bind_texts(template: &TypeTemplate, raw: &Fields) -> (r: Vec<String>)
    ensures
        forall|t: Seq<char>| #[trigger]
            text::texts(r@).contains(t) <==> bind_reads(
                template.schema(),
                binding::views(raw@),
                t,
            ),
{
    let ghost schema = template.schema();
    let ghost given = binding::views(raw@);
    let mut out: Vec<String> = Vec::new();
    let n = template::schema_len(&template.fields);
    let mut i: usize = 0;
    while i < n
        invariant
            n == schema.len(),
            schema == template.schema(),
            given == binding::views(raw@),
            i <= n,
            forall|t: Seq<char>| #[trigger]
                text::texts(out@).contains(t) <==> exists|j: int|
                    0 <= j < i && field_reads(#[trigger] schema[j], given, t),
        decreases n - i,
    {
        let ghost before = text::texts(out@);
        if let Some((name, spec)) = template::schema_entry(&template.fields, i) {
            let ghost f = schema[i as int];
            let ghost mut first: Option<Seq<char>> = None;
            let ghost mut second: Option<Seq<char>> = None;
            if spec.kind == FieldKind::Float {
                if let Some(Value::Text(s)) = raw.get(name.as_str()) {
                    out.push(s.clone());
                    proof {
                        first = Some(s@);
                    }
                }
                if let Some(Value::Text(s)) = &spec.default {
                    out.push(s.clone());
                    proof {
                        second = Some(s@);
                    }
                }
            }
            proof {
                let after = text::texts(out@);
                let mid = if first is Some {
                    before.push(first->0)
                } else {
                    before
                };
                let all = if second is Some {
                    mid.push(second->0)
                } else {
                    mid
                };
                assert(after =~= all);
                assert forall|t: Seq<char>| #[trigger] after.contains(t) <==> before.contains(t)
                    || field_reads(f, given, t) by {
                    lemma_push_contains(before, first, t);
                    lemma_push_contains(mid, second, t);
                }
                assert forall|t: Seq<char>| #[trigger] after.contains(t) <==> exists|j: int|
                    0 <= j < i + 1 && field_reads(#[trigger] schema[j], given, t) by {
                    if after.contains(t) {
                        if before.contains(t) {
                            let j = choose|j: int|
                                0 <= j < i && field_reads(#[trigger] schema[j], given, t);
                            assert(field_reads(schema[j], given, t));
                        } else {
                            assert(field_reads(schema[i as int], given, t));
                        }
                    }
                    if exists|j: int| 0 <= j < i + 1 && field_reads(#[trigger] schema[j], given, t) {
                        let j = choose|j: int|
                            0 <= j < i + 1 && field_reads(#[trigger] schema[j], given, t);
                        if j < i {
                            assert(before.contains(t));
                        }
                    }
                }
            }
        }
        i = i + 1;
    }
    out
}

proof fn lemma_push_contains(s: Seq<Seq<char>>, extra: Option<Seq<char>>, t: Seq<char>)
    ensures
        extra is Some ==> (s.push(extra->0).contains(t) <==> s.contains(t) || t == extra->0),
{
    if extra is Some {
        let after = s.push(extra->0);
        if s.contains(t) {
            let i = choose|i: int| 0 <= i < s.len() && s[i] == t;
            assert(after[i] == t);
        }
        if t == extra->0 {
            assert(after[s.len() as int] == t);
        }
    }
}

/// Binding depends on the table only through what it looks up.
pub proof fn binding_depends_on_its_texts(
    schema: Seq<(Seq<char>, FieldSpec)>,
    raw: Map<Seq<char>, ValueView>,
    a: Readings,
    b: Readings,
)
    requires
        forall|t: Seq<char>| #[trigger]
            bind_reads(schema, raw, t) ==> number::reading(a, t) == number::reading(b, t),
    ensures
        complete(schema, raw, a) == complete(schema, raw, b),
        bound_fields(schema, raw, a) == bound_fields(schema, raw, b),
        forall|name: Seq<char>| #[trigger]
            first_missing(schema, raw, a, name) == first_missing(schema, raw, b, name),
{
    assert forall|i: int| 0 <= i < schema.len() implies #[trigger] declared_value(schema, i, raw, a)
        == declared_value(schema, i, raw, b) by {
        let spec = schema[i].1;
        if spec.kind == FieldKind::Float {
            match supplied(raw, schema[i].0) {
                Some(ValueView::Text(t)) => {
                    assert(field_reads(schema[i], raw, t));
                    assert(bind_reads(schema, raw, t));
                },
                _ => {},
            }
            match spec.default {
                Some(d) => match d@ {
                    ValueView::Text(t) => {
                        assert(field_reads(schema[i], raw, t));
                        assert(bind_reads(schema, raw, t));
                    },
                    _ => {},
                },
                None => {},
            }
        }
    }
    assert forall|i: int| 0 <= i < schema.len() implies #[trigger] is_missing(schema, i, raw, a)
        == is_missing(schema, i, raw, b) by {
        assert(declared_value(schema, i, raw, a) == declared_value(schema, i, raw, b));
    }
    assert(complete(schema, raw, a) == complete(schema, raw, b)) by {
        if complete(schema, raw, a) {
            assert forall|j: int| 0 <= j < schema.len() implies !#[trigger] is_missing(
                schema,
                j,
                raw,
                b,
            ) by {
                assert(!is_missing(schema, j, raw, a));
            }
        }
    }
    assert forall|name: Seq<char>| #[trigger] first_missing(schema, raw, a, name) == first_missing(
        schema,
        raw,
        b,
        name,
    ) by {
        if first_missing(schema, raw, a, name) {
            lemma_first_missing(schema, raw, a, b, name);
        }
        if first_missing(schema, raw, b, name) {
            lemma_first_missing(schema, raw, b, a, name);
        }
    }
    let x = bound_fields(schema, raw, a);
    let y = bound_fields(schema, raw, b);
    assert forall|k: Seq<char>| bound_value(schema, raw, a, k) == #[trigger] bound_value(
        schema,
        raw,
        b,
        k,
    ) by {
        if template::declares(schema, k) {
            let p = position(schema, k);
            assert(schema[p].0 == k);
            assert(declared_value(schema, p, raw, a) == declared_value(schema, p, raw, b));
        }
    }
    assert forall|k: Seq<char>|
        #![trigger x.dom().contains(k)]
        #![trigger y.dom().contains(k)]
        #![trigger x[k]]
        x.contains_key(k) == y.contains_key(k) && (x.contains_key(k) ==> x[k] == y[k]) by {
        assert(bound_value(schema, raw, a, k) == bound_value(schema, raw, b, k));
    }
    assert(x =~= y);
}

proof fn lemma_first_missing(
    schema: Seq<(Seq<char>, FieldSpec)>,
    raw: Map<Seq<char>, ValueView>,
    a: Readings,
    b: Readings,
    name: Seq<char>,
)
    requires
        forall|i: int|
            0 <= i < schema.len() ==> #[trigger] is_missing(schema, i, raw, a) == is_missing(
                schema,
                i,
                raw,
                b,
            ),
        first_missing(schema, raw, a, name),
    ensures
        first_missing(schema, raw, b, name),
{
    let i = choose|i: int|
        {
            &&& 0 <= i < schema.len()
            &&& (#[trigger] schema[i]).0 == name
            &&& is_missing(schema, i, raw, a)
            &&& forall|j: int| 0 <= j < i ==> !#[trigger] is_missing(schema, j, raw, a)
        };
    assert(schema[i].0 == name);
    assert(is_missing(schema, i, raw, b));
    assert forall|j: int| 0 <= j < i implies !#[trigger] is_missing(schema, j, raw, b) by {
        assert(!is_missing(schema, j, raw, a));
    }
}

/// Binding fails exactly when something required is missing, and then on one field.
pub proof fn binding_fails_on_one_field(
    schema: Seq<(Seq<char>, FieldSpec)>,
    raw: Map<Seq<char>, ValueView>,
    table: Readings,
)
    ensures
        complete(schema, raw, table) <==> !exists|name: Seq<char>|
            first_missing(schema, raw, table, name),
        forall|x: Seq<char>, y: Seq<char>| #[trigger]
            first_missing(schema, raw, table, x) && #[trigger] first_missing(schema, raw, table, y)
                ==> x == y,
{
    if !complete(schema, raw, table) {
        let i = choose|i: int| 0 <= i < schema.len() && #[trigger] is_missing(schema, i, raw, table);
        lemma_some_first_missing(schema, raw, table, i);
    } else {
        assert forall|name: Seq<char>| !first_missing(schema, raw, table, name) by {
        }
    }
    assert forall|x: Seq<char>, y: Seq<char>| #[trigger]
        first_missing(schema, raw, table, x) && #[trigger] first_missing(
            schema,
            raw,
            table,
            y,
        ) implies x == y by {
        let i = choose|i: int|
            {
                &&& 0 <= i < schema.len()
                &&& (#[trigger] schema[i]).0 == x
                &&& is_missing(schema, i, raw, table)
                &&& forall|j: int| 0 <= j < i ==> !#[trigger] is_missing(schema, j, raw, table)
            };
        let k = choose|k: int|
            {
                &&& 0 <= k < schema.len()
                &&& (#[trigger] schema[k]).0 == y
                &&& is_missing(schema, k, raw, table)
                &&& forall|j: int| 0 <= j < k ==> !#[trigger] is_missing(schema, j, raw, table)
            };
        assert(!(i < k) && !(k < i));
    }
}

proof fn lemma_some_first_missing(
    schema: Seq<(Seq<char>, FieldSpec)>,
    raw: Map<Seq<char>, ValueView>,
    table: Readings,
    i: int,
)
    requires
        0 <= i < schema.len(),
        is_missing(schema, i, raw, table),
    ensures
        exists|name: Seq<char>| first_missing(schema, raw, table, name),
    decreases i,
{
    if forall|j: int| 0 <= j < i ==> !#[trigger] is_missing(schema, j, raw, table) {
        assert(schema[i].0 == schema[i].0);
        assert(first_missing(schema, raw, table, schema[i].0));
    } else {
        let j = choose|j: int| 0 <= j < i && #[trigger] is_missing(schema, j, raw, table);
        lemma_some_first_missing(schema, raw, table, j);
    }
}

/// Once bound, every required field is there.
pub proof fn required_fields_are_bound(
    schema: Seq<(Seq<char>, FieldSpec)>,
    raw: Map<Seq<char>, ValueView>,
    table: Readings,
    i: int,
)
    requires
        template::distinct_names(schema),
        complete(schema, raw, table),
        0 <= i < schema.len(),
        schema[i].1.required,
    ensures
        bound_fields(schema, raw, table).contains_key(schema[i].0),
{
    lemma_position(schema, i);
    assert(!is_missing(schema, i, raw, table));
}

proof fn lemma_position(schema: Seq<(Seq<char>, FieldSpec)>, i: int)
    requires
        template::distinct_names(schema),
        0 <= i < schema.len(),
    ensures
        template::declares(schema, schema[i].0),
        position(schema, schema[i].0) == i,
{
    let p = position(schema, schema[i].0);
    assert(schema[i].0 == schema[i].0);
    assert(0 <= p < schema.len() && schema[p].0 == schema[i].0);
    if p < i {
        assert(schema[p].0 != schema[i].0);
    }
    if i < p {
        assert(schema[i].0 != schema[p].0);
    }
}

/// A bound float field lies within its bounds: never above its maximum, and never below its
/// minimum unless the minimum lies above the maximum.
pub proof fn bound_floats_lie_within_bounds(
    schema: Seq<(Seq<char>, FieldSpec)>,
    raw: Map<Seq<char>, ValueView>,
    table: Readings,
    i: int,
)
    requires
        template::distinct_names(schema),
        0 <= i < schema.len(),
        schema[i].1.kind == FieldKind::Float,
        bound_fields(schema, raw, table).contains_key(schema[i].0),
    ensures
        bound_fields(schema, raw, table)[schema[i].0] is Float,
        ({
            let v = bound_fields(schema, raw, table)[schema[i].0]->Float_0;
            let spec = schema[i].1;
            &&& spec.max is Some ==> !number::f64_less(spec.max->0.bits, v.bits)
            &&& spec.min is Some && (spec.max is Some ==> !number::f64_less(
                spec.max->0.bits,
                spec.min->0.bits,
            )) ==> !number::f64_less(v.bits, spec.min->0.bits)
        }),
{
    lemma_position(schema, i);
}

/// A bound enum field holds one of its declared values, when any are declared.
pub proof fn bound_enums_hold_a_declared_value(
    schema: Seq<(Seq<char>, FieldSpec)>,
    raw: Map<Seq<char>, ValueView>,
    table: Readings,
    i: int,
)
    requires
        template::distinct_names(schema),
        0 <= i < schema.len(),
        schema[i].1.kind == FieldKind::Enum,
        schema[i].1.values@.len() > 0,
        bound_fields(schema, raw, table).contains_key(schema[i].0),
    ensures
        bound_fields(schema, raw, table)[schema[i].0] is Text,
        text::texts(schema[i].1.values@).contains(
            bound_fields(schema, raw, table)[schema[i].0]->Text_0,
        ),
{
    lemma_position(schema, i);
}

/// Fields that the schema does not declare reach the layout as the source supplied them.
pub proof fn undeclared_fields_pass_through(
    schema: Seq<(Seq<char>, FieldSpec)>,
    raw: Map<Seq<char>, ValueView>,
    table: Readings,
    name: Seq<char>,
)
    requires
        !template::declares(schema, name),
    ensures
        bound_fields(schema, raw, table).contains_key(name) == raw.contains_key(name),
        raw.contains_key(name) ==> bound_fields(schema, raw, table)[name] == raw[name],
{
}

// ---- what a field holds ------------------------------------------------------------------

/// Whether `r` is `n` confined to bounds that are numbers: `n` itself within them, else the bound
/// that it passes. Where the bounds cross, the upper one counts.
pub open spec fn confined(
    n: NumberView,
    min: Option<NumberView>,
    max: Option<NumberView>,
    r: NumberView,
) -> bool {
    let below = min is Some && number::f64_less(n.bits, min->0.bits);
    let above = max is Some && number::f64_less(max->0.bits, n.bits);
    let crossed = min is Some && max is Some && number::f64_less(max->0.bits, min->0.bits);
    !number::f64_is_nan(n.bits) ==> {
        &&& !below && !above ==> r == n
        &&& below && !crossed ==> r == min->0
        &&& below && crossed ==> r == max->0
        &&& !below && above ==> r == max->0
    }
}

/// An optional number.
pub open spec fn bound_of(n: Option<crate::number::Number>) -> Option<NumberView> {
    match n {
        Some(x) => Some(x@),
        None => None,
    }
}

/// Whether a value is valid for a field: any is, but for an enum field that lists its values.
pub open spec fn usable(v: ValueView, f: FieldSpec) -> bool {
    f.kind == FieldKind::Enum && f.values@.len() > 0 ==> exists|k: int|
        0 <= k < f.values@.len() && binding::says(v, #[trigger] f.values@[k]@)
}

/// Whether `r` is a value taken as one of the field's kind.
pub open spec fn fits(v: ValueView, f: FieldSpec, table: Readings, r: ValueView) -> bool {
    match f.kind {
        FieldKind::String => r is Text && binding::says(v, r->Text_0),
        FieldKind::Icon => r is Text && binding::says(v, r->Text_0),
        FieldKind::Enum => r is Text && binding::says(v, r->Text_0),
        FieldKind::Image => r is Image && binding::says(v, r->Image_0),
        FieldKind::Bool => {
            &&& r is Bool
            &&& v is Bool ==> r == v
            &&& !(v is Bool) ==> (r->Bool_0 <==> binding::says(v, "true"@) || binding::says(v, "1"@))
        },
        FieldKind::Float => r is Float && exists|n: NumberView|
            {
                &&& #[trigger] binding::counts_as(v, table, n)
                &&& confined(n, bound_of(f.min), bound_of(f.max), r->Float_0)
            },
    }
}

proof fn lemma_usable(v: ValueView, f: FieldSpec, table: Readings)
    ensures
        usable(v, f) <==> coerce_spec(v, f, table) is Some,
        usable(v, f) ==> fits(v, f, table, coerce_spec(v, f, table)->0),
{
    let t = binding::value_text(v);
    let n = binding::value_float(v, table);
    assert(binding::says(v, t));
    assert(binding::counts_as(v, table, n));
    let listed = text::texts(f.values@);
    if listed.contains(t) {
        let k = choose|k: int| 0 <= k < listed.len() && listed[k] == t;
        assert(f.values@[k]@ == t);
        assert(binding::says(v, f.values@[k]@));
    }
    if exists|k: int| 0 <= k < f.values@.len() && binding::says(v, #[trigger] f.values@[k]@) {
        let k = choose|k: int| 0 <= k < f.values@.len() && binding::says(v, #[trigger] f.values@[k]@);
        assert(f.values@[k]@ == t);
        assert(listed[k] == t);
        assert(listed.contains(t));
    }
}

/// A supplied value that is valid for its field is what gets bound, taken as a value of the field's
/// kind, whatever the field's default is: a string, icon or enum field holds its text, an image
/// field that text as a handle, a float field its number, confined to the bounds, and a bool field
/// whether it is on.
pub proof fn supplied_values_are_bound(
    schema: Seq<(Seq<char>, FieldSpec)>,
    raw: Map<Seq<char>, ValueView>,
    table: Readings,
    i: int,
)
    requires
        forall|a: int, b: int|
            0 <= a < b < schema.len() ==> (#[trigger] schema[a]).0 != (#[trigger] schema[b]).0,
        0 <= i < schema.len(),
        raw.contains_key(schema[i].0),
        usable(raw[schema[i].0], schema[i].1),
    ensures
        bound_fields(schema, raw, table).contains_key(schema[i].0),
        fits(
            raw[schema[i].0],
            schema[i].1,
            table,
            bound_fields(schema, raw, table)[schema[i].0],
        ),
{
    lemma_position(schema, i);
    lemma_usable(raw[schema[i].0], schema[i].1, table);
}

/// A float field that is given a number within its bounds holds that very number.
pub proof fn numbers_within_bounds_are_kept(
    schema: Seq<(Seq<char>, FieldSpec)>,
    raw: Map<Seq<char>, ValueView>,
    table: Readings,
    i: int,
)
    requires
        forall|a: int, b: int|
            0 <= a < b < schema.len() ==> (#[trigger] schema[a]).0 != (#[trigger] schema[b]).0,
        0 <= i < schema.len(),
        schema[i].1.kind == FieldKind::Float,
        raw.contains_key(schema[i].0),
        raw[schema[i].0] is Float,
        !number::f64_is_nan(raw[schema[i].0]->Float_0.bits),
        schema[i].1.min is Some ==> !number::f64_less(
            raw[schema[i].0]->Float_0.bits,
            schema[i].1.min->0.bits,
        ),
        schema[i].1.max is Some ==> !number::f64_less(
            schema[i].1.max->0.bits,
            raw[schema[i].0]->Float_0.bits,
        ),
    ensures
        bound_fields(schema, raw, table).contains_key(schema[i].0),
        bound_fields(schema, raw, table)[schema[i].0] == raw[schema[i].0],
{
    lemma_position(schema, i);
}

/// A field for which nothing valid is supplied holds its default, taken as a value of the field's
/// kind, when it has a valid one.
pub proof fn defaults_fill_in(
    schema: Seq<(Seq<char>, FieldSpec)>,
    raw: Map<Seq<char>, ValueView>,
    table: Readings,
    i: int,
)
    requires
        forall|a: int, b: int|
            0 <= a < b < schema.len() ==> (#[trigger] schema[a]).0 != (#[trigger] schema[b]).0,
        0 <= i < schema.len(),
        raw.contains_key(schema[i].0) ==> !usable(raw[schema[i].0], schema[i].1),
        schema[i].1.default is Some,
        usable(schema[i].1.default->0@, schema[i].1),
    ensures
        bound_fields(schema, raw, table).contains_key(schema[i].0),
        fits(
            schema[i].1.default->0@,
            schema[i].1,
            table,
            bound_fields(schema, raw, table)[schema[i].0],
        ),
{
    lemma_position(schema, i);
    lemma_usable(schema[i].1.default->0@, schema[i].1, table);
    if raw.contains_key(schema[i].0) {
        lemma_usable(raw[schema[i].0], schema[i].1, table);
    }
}

/// Whether there is nothing to bind a field to: neither a valid supplied value nor a valid default.
pub open spec fn nothing_for(f: (Seq<char>, FieldSpec), raw: Map<Seq<char>, ValueView>) -> bool {
    &&& raw.contains_key(f.0) ==> !usable(raw[f.0], f.1)
    &&& f.1.default is Some ==> !usable(f.1.default->0@, f.1)
}

proof fn lemma_nothing(
    schema: Seq<(Seq<char>, FieldSpec)>,
    raw: Map<Seq<char>, ValueView>,
    table: Readings,
    i: int,
)
    ensures
        declared_value(schema, i, raw, table) is None <==> nothing_for(schema[i], raw),
{
    let f = schema[i];
    if raw.contains_key(f.0) {
        lemma_usable(raw[f.0], f.1, table);
    }
    if f.1.default is Some {
        lemma_usable(f.1.default->0@, f.1, table);
    }
}

/// A declared field with nothing to bind it to is left out.
pub proof fn fields_without_a_value_are_left_out(
    schema: Seq<(Seq<char>, FieldSpec)>,
    raw: Map<Seq<char>, ValueView>,
    table: Readings,
    i: int,
)
    requires
        forall|a: int, b: int|
            0 <= a < b < schema.len() ==> (#[trigger] schema[a]).0 != (#[trigger] schema[b]).0,
        0 <= i < schema.len(),
        nothing_for(schema[i], raw),
    ensures
        !bound_fields(schema, raw, table).contains_key(schema[i].0),
{
    lemma_position(schema, i);
    lemma_nothing(schema, raw, table, i);
}

/// A notification is rejected exactly when there is nothing to bind some required field to, and the
/// first such field in the order of the schema is the one that is named.
pub proof fn rejections_name_the_first_gap(
    schema: Seq<(Seq<char>, FieldSpec)>,
    raw: Map<Seq<char>, ValueView>,
    table: Readings,
    name: Seq<char>,
)
    ensures
        complete(schema, raw, table) <==> forall|i: int|
            0 <= i < schema.len() && (#[trigger] schema[i]).1.required ==> !nothing_for(
                schema[i],
                raw,
            ),
        first_missing(schema, raw, table, name) <==> exists|i: int|
            {
                &&& 0 <= i < schema.len()
                &&& (#[trigger] schema[i]).0 == name
                &&& schema[i].1.required
                &&& nothing_for(schema[i], raw)
                &&& forall|j: int|
                    0 <= j < i && (#[trigger] schema[j]).1.required ==> !nothing_for(
                        schema[j],
                        raw,
                    )
            },
{
    assert forall|i: int| 0 <= i < schema.len() implies #[trigger] is_missing(
        schema,
        i,
        raw,
        table,
    ) == (schema[i].1.required && nothing_for(schema[i], raw)) by {
        lemma_nothing(schema, raw, table, i);
    }
    if complete(schema, raw, table) {
        assert forall|i: int| 0 <= i < schema.len() && (#[trigger] schema[i]).1.required implies
            !nothing_for(schema[i], raw) by {
            assert(!is_missing(schema, i, raw, table));
        }
    }
    if first_missing(schema, raw, table, name) {
        let i = choose|i: int|
            {
                &&& 0 <= i < schema.len()
                &&& (#[trigger] schema[i]).0 == name
                &&& is_missing(schema, i, raw, table)
                &&& forall|j: int| 0 <= j < i ==> !#[trigger] is_missing(schema, j, raw, table)
            };
        assert(schema[i].0 == name);
        assert forall|j: int| 0 <= j < i && (#[trigger] schema[j]).1.required implies !nothing_for(
            schema[j],
            raw,
        ) by {
            assert(!is_missing(schema, j, raw, table));
        }
    }
    if exists|i: int|
        {
            &&& 0 <= i < schema.len()
            &&& (#[trigger] schema[i]).0 == name
            &&& schema[i].1.required
            &&& nothing_for(schema[i], raw)
            &&& forall|j: int|
                0 <= j < i && (#[trigger] schema[j]).1.required ==> !nothing_for(schema[j], raw)
        } {
        let i = choose|i: int|
            {
                &&& 0 <= i < schema.len()
                &&& (#[trigger] schema[i]).0 == name
                &&& schema[i].1.required
                &&& nothing_for(schema[i], raw)
                &&& forall|j: int|
                    0 <= j < i && (#[trigger] schema[j]).1.required ==> !nothing_for(schema[j], raw)
            };
        assert(schema[i].0 == name);
        assert(is_missing(schema, i, raw, table));
        assert forall|j: int| 0 <= j < i implies !#[trigger] is_missing(schema, j, raw, table) by {
            if schema[j].1.required {
                assert(!nothing_for(schema[j], raw));
            }
        }
    }
}

/// A bound notification has its type's name, priority and timeout, its own replace key before its
/// type's, and its bound fields; binding fails only for a field that is missing, and names it.
pub proof fn notifications_are_bound_to_their_type(
    template: Arc<TypeTemplate>,
    t: TypeTemplate,
    raw: RawNotification,
    table: Readings,
    r: Result<BoundNotification, CoreError>,
    missing: Seq<char>,
)
    requires
        *template == t,
        call_ensures(bind, (template, raw, &table), r),
    ensures
        r is Ok <==> complete(t.schema(), binding::views(raw.fields@), table),
        r is Ok ==> {
            let b = r->Ok_0;
            &&& b.type_key@ == t.meta.name@
            &&& b.behavior.priority == t.meta.priority
            &&& b.behavior.timeout_ms == t.meta.timeout_ms
            &&& raw.replace_key is Some ==> b.replace_key == raw.replace_key
            &&& raw.replace_key is None ==> b.replace_key == t.meta.replace_key
            &&& binding::views(b.fields@) == bound_fields(
                t.schema(),
                binding::views(raw.fields@),
                table,
            )
            &&& *b.template == t
        },
        first_missing(t.schema(), binding::views(raw.fields@), table, missing) ==> r is Err
            && r->Err_0@ == (CoreErrorView::MissingField {
            ty: t.meta.name@,
            field: missing,
        }),
{
    binding_fails_on_one_field(t.schema(), binding::views(raw.fields@), table);
}

} // verus!
