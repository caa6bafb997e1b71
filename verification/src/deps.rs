//! The standard-dependency allow-list and the stripping pass that
//! removes it from a package's declared dependencies.

use vstd::prelude::*;
use vstd::string::StringExecFns;
use crate::seq_facts::{lemma_filter_absorb, lemma_filter_idempotent, lemma_filter_push};

verus! {

/// The names of dependencies considered unremarkable for macro-like
/// packages; they carry no "weirdness" signal and are stripped.
pub open spec fn allow_list() -> Seq<Seq<char>> {
    seq![
        "syn"@,
        "proc-macro2"@,
        "quote"@,
        "proc-macro-error"@,
        "proc-macro-crate"@,
        "proc-macro-hack"@,
        "darling"@,
        "heck"@,
        "lazy_static"@,
        "regex"@,
        "Inflector"@,
        "anyhow"@,
        "convert_case"@,
        "itertools"@,
        "once_cell"@,
        "rand"@,
        "synstructure"@,
        "unicode-xid"@,
        "failure"@,
    ]
}

/// Whether a dependency name is on the allow-list.
pub open spec fn is_standard(d: Seq<char>) -> bool {
    allow_list().contains(d)
}

/// The predicate a dependency must satisfy to survive stripping.
pub open spec fn keep_dep() -> spec_fn(Seq<char>) -> bool {
    |d: Seq<char>| !is_standard(d)
}

/// What stripping leaves: the dependencies not on the allow-list, in
/// their original order.
pub open spec fn strip_spec(ds: Seq<Seq<char>>) -> Seq<Seq<char>> {
    ds.filter(keep_dep())
}

/// The allow-list as an executable value.
pub fn standard_deps() -> (r: Vec<String>)
    ensures
        r.deep_view() == allow_list(),
{
    let mut v: Vec<String> = Vec::new();
    v.push(String::from_str("syn"));
    v.push(String::from_str("proc-macro2"));
    v.push(String::from_str("quote"));
    v.push(String::from_str("proc-macro-error"));
    v.push(String::from_str("proc-macro-crate"));
    v.push(String::from_str("proc-macro-hack"));
    v.push(String::from_str("darling"));
    v.push(String::from_str("heck"));
    v.push(String::from_str("lazy_static"));
    v.push(String::from_str("regex"));
    v.push(String::from_str("Inflector"));
    v.push(String::from_str("anyhow"));
    v.push(String::from_str("convert_case"));
    v.push(String::from_str("itertools"));
    v.push(String::from_str("once_cell"));
    v.push(String::from_str("rand"));
    v.push(String::from_str("synstructure"));
    v.push(String::from_str("unicode-xid"));
    v.push(String::from_str("failure"));
    proof {
        assert(v.deep_view() =~= allow_list());
    }
    v
}

/// Whether a dependency name is on the allow-list.
pub fn is_standard_dep(d: &String) -> (r: bool)
    ensures
        r == is_standard(d@),
{
    let list = standard_deps();
    let mut j: usize = 0;
    while j < list.len()
        invariant
            j <= list.len(),
            list.deep_view() == allow_list(),
            list@.len() == allow_list().len(),
            forall|k: int| 0 <= k < j ==> allow_list()[k] != d@,
        decreases list.len() - j,
    {
        let item: &String = &list[j];
        proof {
            assert(allow_list()[j as int] == item@);
        }
        if item.eq(d) {
            proof {
                assert(allow_list().contains(d@));
            }
            return true;
        }
        j += 1;
    }
    proof {
        if allow_list().contains(d@) {
            let k = choose|k: int| 0 <= k < allow_list().len() && allow_list()[k] == d@;
            assert(allow_list()[k] != d@);
        }
    }
    false
}

/// Strips every allow-listed name from a dependency list, keeping the
/// order of the rest.
pub fn strip_standard(ds: &Vec<String>) -> (r: Vec<String>)
    ensures
        r.deep_view() == strip_spec(ds.deep_view()),
{
    let ghost dv = ds.deep_view();
    let mut r: Vec<String> = Vec::new();
    let mut i: usize = 0;
    proof {
        reveal(Seq::filter);
        assert(dv.take(0) =~= Seq::<Seq<char>>::empty());
        assert(r.deep_view() =~= dv.take(0).filter(keep_dep()));
    }
    while i < ds.len()
        invariant
            i <= ds.len(),
            dv == ds.deep_view(),
            dv.len() == ds@.len(),
            r.deep_view() == strip_spec(dv.take(i as int)),
        decreases ds.len() - i,
    {
        let d: &String = &ds[i];
        proof {
            assert(dv[i as int] == d@);
            lemma_filter_push(dv.take(i as int), keep_dep(), d@);
            assert(dv.take(i + 1) =~= dv.take(i as int).push(d@));
        }
        let ghost old_r = r.deep_view();
        if !is_standard_dep(d) {
            r.push(d.clone());
            proof {
                assert(r.deep_view() =~= old_r.push(d@));
            }
        }
        i += 1;
    }
    proof {
        assert(dv.take(ds@.len() as int) =~= dv);
    }
    r
}

/// Stripping twice equals stripping once.
pub proof fn lemma_strip_idempotent(ds: Seq<Seq<char>>)
    ensures
        strip_spec(strip_spec(ds)) == strip_spec(ds),
{
    lemma_filter_idempotent(ds, keep_dep());
}

/// The predicate that removes the one name `n`.
pub open spec fn drop_name(n: Seq<char>) -> spec_fn(Seq<char>) -> bool {
    |d: Seq<char>| d != n
}

/// Removing any one standard name first never changes what a full
/// strip returns; since this holds of each name at any point, the
/// standard names may be removed in any order with the same outcome.
pub proof fn lemma_strip_order_independent(ds: Seq<Seq<char>>, n: Seq<char>)
    requires
        is_standard(n),
    ensures
        strip_spec(ds.filter(drop_name(n))) == strip_spec(ds),
{
    assert(forall|a: Seq<char>| #[trigger] keep_dep()(a) ==> drop_name(n)(a));
    lemma_filter_absorb(ds, drop_name(n), keep_dep());
}

} // verus!
