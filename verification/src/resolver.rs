//! Maps a notification onto its template.
//!
//! The resolver is immutable once built; a hot reload builds a fresh one and swaps it in.

use vstd::prelude::*;

use std::sync::Arc;

use crate::names::NameMap;
use crate::template::TypeTemplate;
use crate::text;
use crate::{CoreError, CoreErrorView, SourceKind};

verus! {

/// `Arc::clone`: another handle to the same value.
#[verifier::external_body]
pub(crate) fn share<A>(a: &Arc<A>) -> (r: Arc<A>)
    ensures
        r == *a,
{
    a.clone()
}

/// The known types by name. There always is one named `generic`, the fallback.
#[derive(Debug)]
pub struct TypeResolver {
    types: NameMap<Arc<TypeTemplate>>,
}

/// The templates of a list by name; of several with one name, the last.
pub open spec fn by_name(list: Seq<TypeTemplate>) -> Map<Seq<char>, TypeTemplate>
    decreases list.len(),
{
    if list.len() == 0 {
        Map::empty()
    } else {
        by_name(list.drop_last()).insert(list.last().meta.name@, list.last())
    }
}

/// The template of a notification: the requested type when it is known, else the source's default
/// when that is known, else `generic`.
pub open spec fn resolve_spec(
    types: Map<Seq<char>, TypeTemplate>,
    requested: Option<Seq<char>>,
    source: SourceKind,
) -> TypeTemplate {
    if requested is Some && types.contains_key(requested->0) {
        types[requested->0]
    } else if types.contains_key(crate::default_type_spec(source)) {
        types[crate::default_type_spec(source)]
    } else {
        types["generic"@]
    }
}

spec fn templates(m: Map<Seq<char>, Arc<TypeTemplate>>) -> Map<Seq<char>, TypeTemplate> {
    m.map_values(|t: Arc<TypeTemplate>| *t)
}

impl View for TypeResolver {
    type V = Map<Seq<char>, TypeTemplate>;

    closed spec fn view(&self) -> Map<Seq<char>, TypeTemplate> {
        templates(self.types@)
    }
}

impl TypeResolver {
    #[verifier::type_invariant]
    spec fn has_fallback(self) -> bool {
        self.types@.contains_key("generic"@)
    }

    /// Builds a resolver from parsed templates. One named `generic` is required.
    pub fn from_templates(v: Vec<TypeTemplate>) -> (r: Result<TypeResolver, CoreError>)
        ensures
            match r {
                Ok(t) => by_name(v@).contains_key("generic"@) && t@ == by_name(v@),
                Err(e) => !by_name(v@).contains_key("generic"@) && e@ == CoreErrorView::UnknownType(
                    "generic"@,
                ),
            },
    {
        let ghost all = v@;
        let mut rest = v;
        let mut types: NameMap<Arc<TypeTemplate>> = NameMap::new();
        let ghost mut done: int = 0;
        proof {
            assert(templates(types@) =~= Map::empty());
            assert(all.take(0) =~= Seq::empty());
            assert(all.skip(0) =~= all);
        }
        while rest.len() > 0
            invariant
                0 <= done <= all.len(),
                rest@ == all.skip(done),
                templates(types@) == by_name(all.take(done)),
            decreases rest@.len(),
        {
            let ghost before = types@;
            assert(rest@.len() == all.len() - done);
            let t = rest.remove(0);
            let name = t.meta.name.clone();
            let ghost moved = t;
            types.insert(name, Arc::new(t));
            proof {
                assert(moved == all[done]);
                assert(rest@ =~= all.skip(done + 1));
                assert(all.take(done + 1).drop_last() =~= all.take(done));
                assert(templates(types@) =~= templates(before).insert(moved.meta.name@, moved));
                done = done + 1;
            }
        }
        assert(all.take(done) =~= all);
        Self::finish(types)
    }

    fn finish(types: NameMap<Arc<TypeTemplate>>) -> (r: Result<TypeResolver, CoreError>)
        ensures
            match r {
                Ok(t) => types@.contains_key("generic"@) && t@ == templates(types@),
                Err(e) => !types@.contains_key("generic"@) && e@ == CoreErrorView::UnknownType(
                    "generic"@,
                ),
            },
    {
        if !types.contains_key("generic") {
            return Err(CoreError::UnknownType("generic".to_string()));
        }
        Ok(TypeResolver { types })
    }

    /// Resolves a notification to a template: explicit request, then source default, then
    /// `generic`. An explicit but unknown type falls through to the source default rather than
    /// dropping the notification. There always is a template, so this never fails.
    pub fn resolve(&self, requested: Option<&str>, source: SourceKind) -> (r: Result<
        Arc<TypeTemplate>,
        CoreError,
    >)
        ensures
            r is Ok,
            self@.contains_key("generic"@),
            *r->Ok_0 == resolve_spec(self@, crate::config::opt_str(requested), source),
    {
        proof {
            use_type_invariant(self);
        }
        if let Some(name) = requested {
            if let Some(t) = self.types.get(name) {
                return Ok(share(t));
            }
        }
        if let Some(t) = self.types.get(source.default_type()) {
            return Ok(share(t));
        }
        match self.types.get("generic") {
            Some(t) => Ok(share(t)),
            None => Err(CoreError::UnknownType("generic".to_string())),
        }
    }

    /// The names of all types, each once.
    pub fn names(&self) -> (r: Vec<String>)
        ensures
            text::texts(r@).no_duplicates(),
            forall|k: Seq<char>| #[trigger]
                text::texts(r@).contains(k) <==> self@.contains_key(k),
    {
        let n = self.types.len();
        let mut out: Vec<String> = Vec::new();
        let mut i: usize = 0;
        while i < n
            invariant
                n == self.types.names().len(),
                i <= n,
                text::texts(out@) == self.types.names().take(i as int),
            decreases n - i,
        {
            let ghost before = text::texts(out@);
            let (name, _t) = self.types.entry(i);
            out.push(name.clone());
            proof {
                assert(text::texts(out@) =~= before.push(name@));
                assert(self.types.names().take(i + 1) =~= self.types.names().take(i as int).push(
                    name@,
                ));
            }
            i = i + 1;
        }
        proof {
            assert(self.types.names().take(i as int) =~= self.types.names());
            self.types.lemma_names();
            assert forall|k: Seq<char>| #[trigger]
                text::texts(out@).contains(k) <==> self@.contains_key(k) by {
                assert(self.types@.contains_key(k) <==> self.types.names().contains(k));
            }
        }
        out
    }

    /// The template named `name`, if there is one.
    pub fn get(&self, name: &str) -> (r: Option<Arc<TypeTemplate>>)
        ensures
            match r {
                Some(t) => self@.contains_key(name@) && self@[name@] == *t,
                None => !self@.contains_key(name@),
            },
    {
        match self.types.get(name) {
            Some(t) => Some(share(t)),
            None => None,
        }
    }
}

/// A list of templates resolves each of its names to the last template of that name.
pub proof fn later_templates_replace_earlier(list: Seq<TypeTemplate>, i: int)
    requires
        0 <= i < list.len(),
        forall|j: int| i < j < list.len() ==> (#[trigger] list[j]).meta.name@ != list[i].meta.name@,
    ensures
        by_name(list).contains_key(list[i].meta.name@),
        by_name(list)[list[i].meta.name@] == list[i],
    decreases list.len(),
{
    if i < list.len() - 1 {
        let front = list.drop_last();
        assert(list[list.len() - 1].meta.name@ != list[i].meta.name@);
        assert forall|j: int| i < j < front.len() implies (#[trigger] front[j]).meta.name@
            != front[i].meta.name@ by {
            assert(front[j] == list[j]);
        }
        later_templates_replace_earlier(front, i);
    }
}

/// A list of templates knows exactly the names of its templates.
pub proof fn lists_know_their_names(list: Seq<TypeTemplate>, name: Seq<char>)
    ensures
        by_name(list).contains_key(name) <==> exists|i: int|
            0 <= i < list.len() && (#[trigger] list[i]).meta.name@ == name,
    decreases list.len(),
{
    if list.len() > 0 {
        let front = list.drop_last();
        lists_know_their_names(front, name);
        if exists|i: int| 0 <= i < front.len() && (#[trigger] front[i]).meta.name@ == name {
            let i = choose|i: int| 0 <= i < front.len() && (#[trigger] front[i]).meta.name@ == name;
            assert(list[i].meta.name@ == name);
        }
        if exists|i: int| 0 <= i < list.len() && (#[trigger] list[i]).meta.name@ == name {
            let i = choose|i: int| 0 <= i < list.len() && (#[trigger] list[i]).meta.name@ == name;
            if i < front.len() {
                assert(front[i].meta.name@ == name);
            }
        }
        if list.last().meta.name@ == name {
            assert(list[list.len() - 1].meta.name@ == name);
        }
    }
}

/// A requested type that is known is what a notification gets, whatever its source.
pub proof fn known_requests_are_granted(
    types: Map<Seq<char>, TypeTemplate>,
    name: Seq<char>,
    source: SourceKind,
)
    requires
        types.contains_key(name),
    ensures
        resolve_spec(types, Some(name), source) == types[name],
{
}

/// Without a known request a player's notification is a `song` where that type is known. Any other
/// is `generic`.
pub proof fn sources_have_default_types(
    types: Map<Seq<char>, TypeTemplate>,
    requested: Option<Seq<char>>,
    source: SourceKind,
)
    requires
        requested is Some ==> !types.contains_key(requested->0),
    ensures
        source == SourceKind::Mpris && types.contains_key("song"@) ==> resolve_spec(
            types,
            requested,
            source,
        ) == types["song"@],
        source == SourceKind::Mpris && !types.contains_key("song"@) ==> resolve_spec(
            types,
            requested,
            source,
        ) == types["generic"@],
        source != SourceKind::Mpris ==> resolve_spec(types, requested, source)
            == types["generic"@],
{
}

/// Templates make a resolver exactly when one of them is named `generic`, and it then knows exactly
/// their names, each once; the error names what is missing.
pub proof fn resolvers_need_a_generic_type(
    v: Vec<TypeTemplate>,
    r: Result<TypeResolver, CoreError>,
    names: Vec<String>,
    name: &str,
    found: Option<Arc<TypeTemplate>>,
)
    requires
        call_ensures(TypeResolver::from_templates, (v,), r),
        r is Ok ==> call_ensures(TypeResolver::names, (&r->Ok_0,), names),
        r is Ok ==> call_ensures(TypeResolver::get, (&r->Ok_0, name), found),
    ensures
        r is Ok <==> exists|i: int|
            0 <= i < v@.len() && (#[trigger] v@[i]).meta.name@ == "generic"@,
        r is Err ==> r->Err_0@ == CoreErrorView::UnknownType("generic"@),
        r is Ok ==> {
            &&& text::texts(names@).no_duplicates()
            &&& text::texts(names@).contains(name@) <==> exists|i: int|
                0 <= i < v@.len() && (#[trigger] v@[i]).meta.name@ == name@
            &&& found is Some <==> text::texts(names@).contains(name@)
            &&& found is Some ==> *found->0 == by_name(v@)[name@]
        },
{
    lists_know_their_names(v@, "generic"@);
    lists_know_their_names(v@, name@);
}

} // verus!
