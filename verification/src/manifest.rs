//! Parsing cached manifests and classifying them: a package qualifies
//! when its library section carries the macro flag. The manifest text
//! is third-party data, so parsing is best-effort: a manifest without a
//! readable package name is skipped.

use vstd::prelude::*;
use crate::seq_facts::{lemma_filter_keys_distinct, lemma_filter_push};

verus! {

/// A parsed manifest, reduced to the three things classification
/// reads: the declared package name, the macro flag, and the declared
/// dependency names.
#[derive(Debug)]
pub struct Manifest {
    pub name: String,
    pub proc_macro: bool,
    pub deps: Vec<String>,
}

impl View for Manifest {
    type V = (Seq<char>, bool, Seq<Seq<char>>);

    open spec fn view(&self) -> (Seq<char>, bool, Seq<Seq<char>>) {
        (self.name@, self.proc_macro, self.deps.deep_view())
    }
}

impl DeepView for Manifest {
    type V = (Seq<char>, bool, Seq<Seq<char>>);

    open spec fn deep_view(&self) -> (Seq<char>, bool, Seq<Seq<char>>) {
        self@
    }
}

impl Clone for Manifest {
    fn clone(&self) -> (r: Self)
        ensures
            r@ == self@,
    {
        let deps = self.deps.clone();
        proof {
            assert(deps.deep_view() =~= self.deps.deep_view());
        }
        Manifest { name: self.name.clone(), proc_macro: self.proc_macro, deps }
    }
}

/// The string at `<section>.<key>` of a manifest text, if the text
/// parses and such a string stands there. The result depends on the
/// text alone.
pub uninterp spec fn str_field_of(text: Seq<char>, section: Seq<char>, key: Seq<char>) -> Option<
    Seq<char>,
>;

/// The boolean at `<section>.<key>` of a manifest text, under the same
/// conditions.
pub uninterp spec fn bool_field_of(text: Seq<char>, section: Seq<char>, key: Seq<char>) -> Option<
    bool,
>;

/// The keys of the table at `<section>` of a manifest text, if the
/// text parses and a table stands there.
pub uninterp spec fn table_keys_of(text: Seq<char>, section: Seq<char>) -> Option<Seq<Seq<char>>>;

/// Relies on `toml::from_str` to parse the text and on
/// `toml::Value::{get, as_str}` to read the string at
/// `<section>.<key>`; any missing or ill-typed piece yields `None`.
#[verifier::external_body]
fn toml_str_field(text: &str, section: &str, key: &str) -> (r: Option<String>)
    ensures
        r is Some <==> str_field_of(text@, section@, key@) is Some,
        (r matches Some(s) ==> str_field_of(text@, section@, key@) == Some(s@)),
{
    let v: toml::Value = toml::from_str(text).ok()?;
    Some(v.get(section)?.get(key)?.as_str()?.to_string())
}

/// Relies on `toml::from_str` to parse the text and on
/// `toml::Value::{get, as_bool}` to read the boolean at
/// `<section>.<key>`; any missing or ill-typed piece yields `None`.
#[verifier::external_body]
fn toml_bool_field(text: &str, section: &str, key: &str) -> (r: Option<bool>)
    ensures
        r == bool_field_of(text@, section@, key@),
{
    let v: toml::Value = toml::from_str(text).ok()?;
    v.get(section)?.get(key)?.as_bool()
}

/// Relies on `toml::from_str` to parse the text and on
/// `toml::Value::{get, as_table}` and `toml::Table::keys` to list the
/// keys of the table at `<section>`. The table is a map, so its keys
/// are pairwise distinct.
#[verifier::external_body]
fn toml_table_keys(text: &str, section: &str) -> (r: Option<Vec<String>>)
    ensures
        r is Some <==> table_keys_of(text@, section@) is Some,
        (r matches Some(ks) ==> table_keys_of(text@, section@) == Some(ks.deep_view())
            && ks.deep_view().no_duplicates()),
{
    let v: toml::Value = toml::from_str(text).ok()?;
    let t = v.get(section)?.as_table()?;
    Some(t.keys().cloned().collect())
}

/// The declared package name: the one under the `package` section, or,
/// failing that, under the legacy `project` alias.
pub open spec fn manifest_name_spec(text: Seq<char>) -> Option<Seq<char>> {
    if str_field_of(text, "package"@, "name"@) is Some {
        str_field_of(text, "package"@, "name"@)
    } else {
        str_field_of(text, "project"@, "name"@)
    }
}

/// The macro flag: `lib.proc-macro`, or its legacy `proc_macro`
/// spelling, defaulting to `false` when neither is present.
pub open spec fn manifest_flag_spec(text: Seq<char>) -> bool {
    match bool_field_of(text, "lib"@, "proc-macro"@) {
        Some(b) => b,
        None => match bool_field_of(text, "lib"@, "proc_macro"@) {
            Some(b) => b,
            None => false,
        },
    }
}

/// The declared dependency names, empty when no `dependencies` table
/// is present.
pub open spec fn manifest_deps_spec(text: Seq<char>) -> Seq<Seq<char>> {
    match table_keys_of(text, "dependencies"@) {
        Some(ks) => ks,
        None => Seq::empty(),
    }
}

/// Parses one manifest text. Yields `None` exactly when no package
/// name can be read from it; the macro flag and the dependency list
/// fall back to `false` and to empty when absent.
pub fn read_manifest(text: &str) -> (r: Option<Manifest>)
    ensures
        r is Some <==> manifest_name_spec(text@) is Some,
        (r matches Some(m) ==> Some(m.name@) == manifest_name_spec(text@) && m.proc_macro
            == manifest_flag_spec(text@) && m.deps.deep_view() == manifest_deps_spec(text@)
            && m.deps.deep_view().no_duplicates()),
{
    let name = match toml_str_field(text, "package", "name") {
        Some(n) => n,
        None => {
            match toml_str_field(text, "project", "name") {
                Some(n) => n,
                None => {
                    return None;
                },
            }
        },
    };
    let proc_macro = match toml_bool_field(text, "lib", "proc-macro") {
        Some(b) => b,
        None => {
            match toml_bool_field(text, "lib", "proc_macro") {
                Some(b) => b,
                None => false,
            }
        },
    };
    let deps = match toml_table_keys(text, "dependencies") {
        Some(ks) => ks,
        None => Vec::new(),
    };
    proof {
        if table_keys_of(text@, "dependencies"@) is None {
            assert(deps.deep_view() =~= Seq::<Seq<char>>::empty());
        }
    }
    Some(Manifest { name, proc_macro, deps })
}

/// The classification predicate: the manifest declares the package
/// macro-like.
pub open spec fn is_macro_like() -> spec_fn((Seq<char>, bool, Seq<Seq<char>>)) -> bool {
    |m: (Seq<char>, bool, Seq<Seq<char>>)| m.1
}

/// The predicate that keeps entries whose name differs from `n`.
pub open spec fn not_named(n: Seq<char>) -> spec_fn((Seq<char>, bool, Seq<Seq<char>>)) -> bool {
    |m: (Seq<char>, bool, Seq<Seq<char>>)| m.0 != n
}

/// One entry per declared name, last seen wins: each arriving entry
/// evicts any earlier entry of the same name.
pub open spec fn dedup_by_name_spec(ms: Seq<(Seq<char>, bool, Seq<Seq<char>>)>) -> Seq<
    (Seq<char>, bool, Seq<Seq<char>>),
>
    decreases ms.len(),
{
    if ms.len() == 0 {
        Seq::empty()
    } else {
        dedup_by_name_spec(ms.drop_last()).filter(not_named(ms.last().0)).push(ms.last())
    }
}

/// The macro-like corpus a run classifies: the macro-like manifests,
/// keyed by their declared name, last seen wins.
pub open spec fn select_spec(ms: Seq<(Seq<char>, bool, Seq<Seq<char>>)>) -> Seq<
    (Seq<char>, bool, Seq<Seq<char>>),
> {
    dedup_by_name_spec(ms.filter(is_macro_like()))
}

fn remove_named(v: &Vec<Manifest>, name: &String) -> (r: Vec<Manifest>)
    ensures
        r.deep_view() == v.deep_view().filter(not_named(name@)),
{
    let ghost dv = v.deep_view();
    let mut r: Vec<Manifest> = Vec::new();
    let mut i: usize = 0;
    proof {
        reveal(Seq::filter);
        assert(dv.take(0) =~= Seq::<(Seq<char>, bool, Seq<Seq<char>>)>::empty());
        assert(r.deep_view() =~= dv.take(0).filter(not_named(name@)));
    }
    while i < v.len()
        invariant
            i <= v.len(),
            dv == v.deep_view(),
            dv.len() == v@.len(),
            r.deep_view() == dv.take(i as int).filter(not_named(name@)),
        decreases v.len() - i,
    {
        let m: &Manifest = &v[i];
        proof {
            assert(dv[i as int] == m@);
            lemma_filter_push(dv.take(i as int), not_named(name@), m@);
            assert(dv.take(i + 1) =~= dv.take(i as int).push(m@));
        }
        let ghost old_r = r.deep_view();
        if !m.name.eq(name) {
            r.push(m.clone());
            proof {
                assert(r.deep_view() =~= old_r.push(m@));
            }
        }
        i += 1;
    }
    proof {
        assert(dv.take(v@.len() as int) =~= dv);
    }
    r
}

/// Selects the macro-like manifests and keeps exactly one per declared
/// name, last seen wins.
pub fn select_macro_like(ms: &Vec<Manifest>) -> (r: Vec<Manifest>)
    ensures
        r.deep_view() == select_spec(ms.deep_view()),
{
    let ghost dv = ms.deep_view();
    let mut out: Vec<Manifest> = Vec::new();
    let mut i: usize = 0;
    proof {
        reveal(Seq::filter);
        assert(dv.take(0) =~= Seq::<(Seq<char>, bool, Seq<Seq<char>>)>::empty());
        assert(out.deep_view() =~= dedup_by_name_spec(dv.take(0).filter(is_macro_like())));
    }
    while i < ms.len()
        invariant
            i <= ms.len(),
            dv == ms.deep_view(),
            dv.len() == ms@.len(),
            out.deep_view() == dedup_by_name_spec(dv.take(i as int).filter(is_macro_like())),
        decreases ms.len() - i,
    {
        let m: &Manifest = &ms[i];
        proof {
            assert(dv[i as int] == m@);
            lemma_filter_push(dv.take(i as int), is_macro_like(), m@);
            assert(dv.take(i + 1) =~= dv.take(i as int).push(m@));
        }
        if m.proc_macro {
            let ghost before = dv.take(i as int).filter(is_macro_like());
            out = remove_named(&out, &m.name);
            let ghost filtered = out.deep_view();
            out.push(m.clone());
            proof {
                assert(out.deep_view() =~= filtered.push(m@));
                assert(before.push(m@).drop_last() =~= before);
                assert(dedup_by_name_spec(before.push(m@)) == dedup_by_name_spec(before).filter(
                    not_named(m@.0),
                ).push(m@));
            }
        }
        i += 1;
    }
    proof {
        assert(dv.take(ms@.len() as int) =~= dv);
    }
    out
}

/// In a deduplicated corpus the declared names are pairwise distinct:
/// there is exactly one entry per name.
pub proof fn lemma_dedup_unique_names(ms: Seq<(Seq<char>, bool, Seq<Seq<char>>)>)
    ensures
        forall|i: int, j: int|
            0 <= i < j < dedup_by_name_spec(ms).len() ==> dedup_by_name_spec(ms)[i].0
                != dedup_by_name_spec(ms)[j].0,
    decreases ms.len(),
{
    broadcast use vstd::seq_lib::group_filter_ensures;

    if ms.len() > 0 {
        let d0 = dedup_by_name_spec(ms.drop_last());
        let last = ms.last();
        lemma_dedup_unique_names(ms.drop_last());
        lemma_filter_keys_distinct(
            d0,
            not_named(last.0),
            |m: (Seq<char>, bool, Seq<Seq<char>>)| m.0,
        );
        let f = d0.filter(not_named(last.0));
        assert forall|i: int, j: int|
            0 <= i < j < f.push(last).len() implies f.push(last)[i].0 != f.push(last)[j].0 by {
            if j < f.len() {
            } else {
                assert(not_named(last.0)(f[i]));
            }
        }
    }
}

} // verus!
