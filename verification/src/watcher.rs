//! Which artifact a changed file belongs to. Nothing is parsed here: the driver re-reads what
//! changed and keeps the last good one on a broken edit.

use vstd::prelude::*;

use crate::sources::Reloaded;
use crate::text;

verus! {

/// A changed path: its file name, if it has one that is text, and its components as far as they
/// are text.
#[derive(Debug, PartialEq, Eq)]
pub struct Changed {
    pub file_name: Option<String>,
    pub components: Vec<String>,
}

/// The artifact that a changed path belongs to, if any: anything under a `types` directory to the
/// types, and else `config.toml` and `theme.toml` to what they are named after.
pub open spec fn classify_spec(p: Changed) -> Option<Reloaded> {
    match p.file_name {
        None => None,
        Some(name) => if text::texts(p.components@).contains("types"@) {
            Some(Reloaded::Types)
        } else if name@ == "config.toml"@ {
            Some(Reloaded::Config)
        } else if name@ == "theme.toml"@ {
            Some(Reloaded::Theme)
        } else {
            None
        },
    }
}

/// Finds the artifact that a changed path belongs to.
pub fn classify(p: &Changed) -> (r: Option<Reloaded>)
    ensures
        r == classify_spec(*p),
{
    match &p.file_name {
        None => None,
        Some(name) => if text::contains_text(&p.components, "types") {
            Some(Reloaded::Types)
        } else if text::same(name.as_str(), "config.toml") {
            Some(Reloaded::Config)
        } else if text::same(name.as_str(), "theme.toml") {
            Some(Reloaded::Theme)
        } else {
            None
        },
    }
}

/// Whether any of the changed paths belongs to an artifact.
pub open spec fn touches(paths: Seq<Changed>, which: Reloaded) -> bool {
    exists|i: int| 0 <= i < paths.len() && classify_spec(#[trigger] paths[i]) == Some(which)
}

/// The artifacts that a burst of changes touches: each at most once, configuration first, then
/// theme, then types.
pub open spec fn affected_spec(paths: Seq<Changed>) -> Seq<Reloaded> {
    let config = if touches(paths, Reloaded::Config) {
        seq![Reloaded::Config]
    } else {
        Seq::empty()
    };
    let theme = if touches(paths, Reloaded::Theme) {
        seq![Reloaded::Theme]
    } else {
        Seq::empty()
    };
    let types = if touches(paths, Reloaded::Types) {
        seq![Reloaded::Types]
    } else {
        Seq::empty()
    };
    config + theme + types
}

/// One signal per distinct artifact that a burst of changes touches.
pub fn affected(paths: &Vec<Changed>) -> (r: Vec<Reloaded>)
    ensures
        r@ == affected_spec(paths@),
{
    let mut config = false;
    let mut theme = false;
    let mut types = false;
    let mut i: usize = 0;
    while i < paths.len()
        invariant
            i <= paths@.len(),
            config == exists|j: int|
                0 <= j < i && classify_spec(#[trigger] paths@[j]) == Some(Reloaded::Config),
            theme == exists|j: int|
                0 <= j < i && classify_spec(#[trigger] paths@[j]) == Some(Reloaded::Theme),
            types == exists|j: int|
                0 <= j < i && classify_spec(#[trigger] paths@[j]) == Some(Reloaded::Types),
        decreases paths@.len() - i,
    {
        let ghost here = classify_spec(paths@[i as int]);
        match classify(&paths[i]) {
            Some(Reloaded::Config) => {
                config = true;
            },
            Some(Reloaded::Theme) => {
                theme = true;
            },
            Some(Reloaded::Types) => {
                types = true;
            },
            None => {},
        }
        assert(classify_spec(paths@[i as int]) == here);
        i = i + 1;
    }
    let mut out: Vec<Reloaded> = Vec::new();
    if config {
        out.push(Reloaded::Config);
    }
    if theme {
        out.push(Reloaded::Theme);
    }
    if types {
        out.push(Reloaded::Types);
    }
    assert(out@ =~= affected_spec(paths@));
    out
}

/// A changed path belongs to the types when it lies under a `types` directory, and else to what its
/// file is named after. A path without a file name belongs to nothing.
pub proof fn paths_belong_where_they_lie(p: Changed)
    ensures
        ({
            let under_types = exists|i: int|
                0 <= i < p.components@.len() && (#[trigger] p.components@[i])@ == "types"@;
            let r = classify_spec(p);
            &&& p.file_name is None ==> r is None
            &&& p.file_name is Some && under_types ==> r == Some(Reloaded::Types)
            &&& p.file_name is Some && !under_types ==> {
                &&& r == Some(Reloaded::Config) <==> p.file_name->0@ == "config.toml"@
                &&& r == Some(Reloaded::Theme) <==> p.file_name->0@ == "theme.toml"@
                &&& r != Some(Reloaded::Types)
            }
        }),
{
    reveal_strlit("config.toml");
    reveal_strlit("theme.toml");
    assert("config.toml"@.len() == 11 && "theme.toml"@.len() == 10);
    let t = text::texts(p.components@);
    if t.contains("types"@) {
        let i = choose|i: int| 0 <= i < t.len() && t[i] == "types"@;
        assert(p.components@[i]@ == "types"@);
    }
    if exists|i: int| 0 <= i < p.components@.len() && (#[trigger] p.components@[i])@ == "types"@ {
        let i = choose|i: int|
            0 <= i < p.components@.len() && (#[trigger] p.components@[i])@ == "types"@;
        assert(t[i] == "types"@);
    }
}

/// Where an artifact stands among those to load afresh.
pub open spec fn turn(which: Reloaded) -> int {
    match which {
        Reloaded::Config => 0,
        Reloaded::Theme => 1,
        Reloaded::Types => 2,
    }
}

/// A burst of changes calls for exactly the artifacts that one of its paths belongs to, each once,
/// the configuration before the theme and the theme before the types.
pub proof fn bursts_name_each_artifact_once(paths: Seq<Changed>, which: Reloaded, i: int, j: int)
    ensures
        affected_spec(paths).contains(which) <==> exists|k: int|
            0 <= k < paths.len() && classify_spec(#[trigger] paths[k]) == Some(which),
        0 <= i < j < affected_spec(paths).len() ==> turn(affected_spec(paths)[i]) < turn(
            affected_spec(paths)[j],
        ),
{
    let c = touches(paths, Reloaded::Config);
    let h = touches(paths, Reloaded::Theme);
    let y = touches(paths, Reloaded::Types);
    let r = affected_spec(paths);
    let a: int = if c {
        1
    } else {
        0
    };
    let b: int = if h {
        a + 1
    } else {
        a
    };
    assert(c ==> r[0] == Reloaded::Config);
    assert(h ==> r[a] == Reloaded::Theme);
    assert(y ==> r[b] == Reloaded::Types);
    if r.contains(which) {
        let k = choose|k: int| 0 <= k < r.len() && r[k] == which;
        assert(r[k] == which);
    }
}

} // verus!
