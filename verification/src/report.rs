//! The final pipeline stage: strip the standard allow-list from each
//! classified package, drop packages with nothing left, keep those
//! with more than `threshold` residual dependencies, and tally how
//! often each residual dependency name occurs across the survivors.

use vstd::prelude::*;
use crate::deps::{strip_spec, strip_standard};
use crate::manifest::Manifest;
use crate::seq_facts::lemma_filter_push;

verus! {

/// One reported package: its name and its residual dependencies.
#[derive(Debug)]
pub struct ReportEntry {
    pub name: String,
    pub deps: Vec<String>,
}

impl View for ReportEntry {
    type V = (Seq<char>, Seq<Seq<char>>);

    open spec fn view(&self) -> (Seq<char>, Seq<Seq<char>>) {
        (self.name@, self.deps.deep_view())
    }
}

impl DeepView for ReportEntry {
    type V = (Seq<char>, Seq<Seq<char>>);

    open spec fn deep_view(&self) -> (Seq<char>, Seq<Seq<char>>) {
        self@
    }
}

/// Stripping applied to one classified package.
pub open spec fn strip_entry() -> spec_fn((Seq<char>, bool, Seq<Seq<char>>)) -> (
    Seq<char>,
    bool,
    Seq<Seq<char>>,
) {
    |m: (Seq<char>, bool, Seq<Seq<char>>)| (m.0, m.1, strip_spec(m.2))
}

/// Whether anything is left after stripping.
pub open spec fn has_residual() -> spec_fn((Seq<char>, bool, Seq<Seq<char>>)) -> bool {
    |m: (Seq<char>, bool, Seq<Seq<char>>)| m.2.len() > 0
}

/// The packages that keep at least one non-standard dependency, each
/// with its stripped dependency list.
pub open spec fn weird_spec(ms: Seq<(Seq<char>, bool, Seq<Seq<char>>)>) -> Seq<
    (Seq<char>, bool, Seq<Seq<char>>),
> {
    ms.map_values(strip_entry()).filter(has_residual())
}

/// Strips the allow-list from every package and drops the packages
/// whose dependencies were all standard.
pub fn find_weird_dependencies(ms: &Vec<Manifest>) -> (r: Vec<Manifest>)
    ensures
        r.deep_view() == weird_spec(ms.deep_view()),
{
    let ghost dv = ms.deep_view();
    let mut r: Vec<Manifest> = Vec::new();
    let mut i: usize = 0;
    proof {
        reveal(Seq::filter);
        assert(dv.take(0).map_values(strip_entry()) =~= Seq::<
            (Seq<char>, bool, Seq<Seq<char>>),
        >::empty());
        assert(r.deep_view() =~= weird_spec(dv.take(0)));
    }
    while i < ms.len()
        invariant
            i <= ms.len(),
            dv == ms.deep_view(),
            dv.len() == ms@.len(),
            r.deep_view() == weird_spec(dv.take(i as int)),
        decreases ms.len() - i,
    {
        let m: &Manifest = &ms[i];
        let stripped = strip_standard(&m.deps);
        proof {
            assert(dv[i as int] == m@);
            lemma_filter_push(
                dv.take(i as int).map_values(strip_entry()),
                has_residual(),
                strip_entry()(m@),
            );
            assert(dv.take(i + 1).map_values(strip_entry()) =~= dv.take(i as int).map_values(
                strip_entry(),
            ).push(strip_entry()(m@)));
        }
        let ghost old_r = r.deep_view();
        if stripped.len() > 0 {
            r.push(Manifest { name: m.name.clone(), proc_macro: m.proc_macro, deps: stripped });
            proof {
                assert(r.deep_view() =~= old_r.push(strip_entry()(m@)));
            }
        }
        i += 1;
    }
    proof {
        assert(dv.take(ms@.len() as int) =~= dv);
    }
    r
}

/// Whether a package clears the significance threshold.
pub open spec fn significant_pred(threshold: int) -> spec_fn((Seq<char>, bool, Seq<Seq<char>>)) -> bool {
    |m: (Seq<char>, bool, Seq<Seq<char>>)| m.2.len() > threshold
}

/// A classified package reduced to its reported shape.
pub open spec fn entry_of() -> spec_fn((Seq<char>, bool, Seq<Seq<char>>)) -> (
    Seq<char>,
    Seq<Seq<char>>,
) {
    |m: (Seq<char>, bool, Seq<Seq<char>>)| (m.0, m.2)
}

/// The packages with more than `threshold` residual dependencies, in
/// order, reduced to name and dependencies.
pub open spec fn significant_spec(ms: Seq<(Seq<char>, bool, Seq<Seq<char>>)>, threshold: int) -> Seq<
    (Seq<char>, Seq<Seq<char>>),
> {
    ms.filter(significant_pred(threshold)).map_values(entry_of())
}

/// Keeps the packages with more than `threshold` residual
/// dependencies; the rest are excluded from the report and from the
/// frequency tally alike.
pub fn significant_packages(ms: &Vec<Manifest>, threshold: usize) -> (r: Vec<ReportEntry>)
    ensures
        r.deep_view() == significant_spec(ms.deep_view(), threshold as int),
{
    let ghost dv = ms.deep_view();
    let mut r: Vec<ReportEntry> = Vec::new();
    let mut i: usize = 0;
    proof {
        reveal(Seq::filter);
        assert(dv.take(0).filter(significant_pred(threshold as int)) =~= Seq::<
            (Seq<char>, bool, Seq<Seq<char>>),
        >::empty());
        assert(r.deep_view() =~= significant_spec(dv.take(0), threshold as int));
    }
    while i < ms.len()
        invariant
            i <= ms.len(),
            dv == ms.deep_view(),
            dv.len() == ms@.len(),
            r.deep_view() == significant_spec(dv.take(i as int), threshold as int),
        decreases ms.len() - i,
    {
        let m: &Manifest = &ms[i];
        proof {
            assert(dv[i as int] == m@);
            lemma_filter_push(dv.take(i as int), significant_pred(threshold as int), m@);
            assert(dv.take(i + 1) =~= dv.take(i as int).push(m@));
        }
        let ghost old_r = r.deep_view();
        if m.deps.len() > threshold {
            let deps = m.deps.clone();
            proof {
                assert(deps.deep_view() =~= m.deps.deep_view());
            }
            r.push(ReportEntry { name: m.name.clone(), deps });
            proof {
                assert(r.deep_view() =~= old_r.push(entry_of()(m@)));
                assert(dv.take(i + 1).filter(significant_pred(threshold as int)).map_values(
                    entry_of(),
                ) =~= old_r.push(entry_of()(m@)));
            }
        } else {
            proof {
                assert(dv.take(i + 1).filter(significant_pred(threshold as int)).map_values(
                    entry_of(),
                ) =~= old_r);
            }
        }
        i += 1;
    }
    proof {
        assert(dv.take(ms@.len() as int) =~= dv);
    }
    r
}

/// How many of the reported packages list the dependency `d`.
pub open spec fn freq_spec(d: Seq<char>, pkgs: Seq<(Seq<char>, Seq<Seq<char>>)>) -> nat
    decreases pkgs.len(),
{
    if pkgs.len() == 0 {
        0
    } else {
        freq_spec(d, pkgs.drop_last()) + if pkgs.last().1.contains(d) {
            1nat
        } else {
            0nat
        }
    }
}

/// Whether any reported package lists the dependency `d`.
pub open spec fn corpus_has_dep(pkgs: Seq<(Seq<char>, Seq<Seq<char>>)>, d: Seq<char>) -> bool {
    exists|i: int| 0 <= i < pkgs.len() && #[trigger] pkgs[i].1.contains(d)
}

/// A dependency has a positive count exactly when some package lists
/// it.
pub proof fn lemma_freq_pos(d: Seq<char>, pkgs: Seq<(Seq<char>, Seq<Seq<char>>)>)
    ensures
        freq_spec(d, pkgs) > 0 <==> corpus_has_dep(pkgs, d),
    decreases pkgs.len(),
{
    if pkgs.len() > 0 {
        let p0 = pkgs.drop_last();
        lemma_freq_pos(d, p0);
        if pkgs.last().1.contains(d) {
            assert(pkgs[pkgs.len() - 1].1.contains(d));
        } else {
            if corpus_has_dep(p0, d) {
                let i = choose|i: int| 0 <= i < p0.len() && #[trigger] p0[i].1.contains(d);
                assert(pkgs[i].1.contains(d));
            }
            if corpus_has_dep(pkgs, d) {
                let i = choose|i: int| 0 <= i < pkgs.len() && #[trigger] pkgs[i].1.contains(d);
                assert(i < p0.len() && p0[i].1.contains(d));
            }
        }
    }
}

/// Whether a dependency list names `d`.
fn contains_string(v: &Vec<String>, d: &String) -> (r: bool)
    ensures
        r == v.deep_view().contains(d@),
{
    let mut j: usize = 0;
    while j < v.len()
        invariant
            j <= v.len(),
            v.deep_view().len() == v@.len(),
            forall|k: int| 0 <= k < j ==> v.deep_view()[k] != d@,
        decreases v.len() - j,
    {
        let item: &String = &v[j];
        proof {
            assert(v.deep_view()[j as int] == item@);
        }
        if item.eq(d) {
            proof {
                assert(v.deep_view().contains(d@));
            }
            return true;
        }
        j += 1;
    }
    proof {
        if v.deep_view().contains(d@) {
            let k = choose|k: int|
                0 <= k < v.deep_view().len() && v.deep_view()[k] == d@;
            assert(v.deep_view()[k] != d@);
        }
    }
    false
}

/// Counts the reported packages that list the dependency `d`.
fn count_one(pkgs: &Vec<ReportEntry>, d: &String) -> (c: usize)
    ensures
        c as nat == freq_spec(d@, pkgs.deep_view()),
{
    let ghost dv = pkgs.deep_view();
    let mut c: usize = 0;
    let mut i: usize = 0;
    proof {
        assert(dv.take(0) =~= Seq::<(Seq<char>, Seq<Seq<char>>)>::empty());
    }
    while i < pkgs.len()
        invariant
            i <= pkgs.len(),
            dv == pkgs.deep_view(),
            dv.len() == pkgs@.len(),
            c as nat == freq_spec(d@, dv.take(i as int)),
            c <= i,
        decreases pkgs.len() - i,
    {
        let e: &ReportEntry = &pkgs[i];
        proof {
            assert(dv[i as int] == e@);
            assert(dv.take(i + 1).drop_last() =~= dv.take(i as int));
            assert(dv.take(i + 1).last() == dv[i as int]);
        }
        if contains_string(&e.deps, d) {
            c += 1;
        }
        i += 1;
    }
    proof {
        assert(dv.take(pkgs@.len() as int) =~= dv);
    }
    c
}

/// Every dependency name of every reported package, in order, with
/// repetitions.
pub open spec fn flatten_spec(pkgs: Seq<(Seq<char>, Seq<Seq<char>>)>) -> Seq<Seq<char>>
    decreases pkgs.len(),
{
    if pkgs.len() == 0 {
        Seq::empty()
    } else {
        flatten_spec(pkgs.drop_last()) + pkgs.last().1
    }
}

/// A name occurs among the flattened dependencies exactly when some
/// package lists it.
pub proof fn lemma_flatten_contains(pkgs: Seq<(Seq<char>, Seq<Seq<char>>)>, d: Seq<char>)
    ensures
        flatten_spec(pkgs).contains(d) <==> corpus_has_dep(pkgs, d),
    decreases pkgs.len(),
{
    if pkgs.len() > 0 {
        let p0 = pkgs.drop_last();
        lemma_flatten_contains(p0, d);
        let whole = flatten_spec(p0) + pkgs.last().1;
        if flatten_spec(p0).contains(d) {
            let k = choose|k: int| 0 <= k < flatten_spec(p0).len() && flatten_spec(p0)[k] == d;
            assert(whole[k] == d);
            assert(whole.contains(d));
        }
        if pkgs.last().1.contains(d) {
            let k = choose|k: int| 0 <= k < pkgs.last().1.len() && pkgs.last().1[k] == d;
            assert(whole[flatten_spec(p0).len() + k] == d);
            assert(whole.contains(d));
            assert(pkgs[pkgs.len() - 1].1.contains(d));
        }
        if whole.contains(d) {
            let k = choose|k: int| 0 <= k < whole.len() && whole[k] == d;
            if k < flatten_spec(p0).len() {
                assert(flatten_spec(p0)[k] == d);
                assert(flatten_spec(p0).contains(d));
            } else {
                assert(pkgs.last().1[k - flatten_spec(p0).len()] == d);
                assert(pkgs.last().1.contains(d));
            }
        }
        if corpus_has_dep(p0, d) {
            let i = choose|i: int| 0 <= i < p0.len() && #[trigger] p0[i].1.contains(d);
            assert(pkgs[i].1.contains(d));
        }
        if corpus_has_dep(pkgs, d) && !pkgs.last().1.contains(d) {
            let i = choose|i: int| 0 <= i < pkgs.len() && #[trigger] pkgs[i].1.contains(d);
            assert(i < p0.len() && p0[i].1.contains(d));
        }
    }
}

fn flatten_deps(pkgs: &Vec<ReportEntry>) -> (r: Vec<String>)
    ensures
        r.deep_view() == flatten_spec(pkgs.deep_view()),
{
    let ghost dv = pkgs.deep_view();
    let mut r: Vec<String> = Vec::new();
    let mut i: usize = 0;
    proof {
        assert(dv.take(0) =~= Seq::<(Seq<char>, Seq<Seq<char>>)>::empty());
        assert(r.deep_view() =~= flatten_spec(dv.take(0)));
    }
    while i < pkgs.len()
        invariant
            i <= pkgs.len(),
            dv == pkgs.deep_view(),
            dv.len() == pkgs@.len(),
            r.deep_view() == flatten_spec(dv.take(i as int)),
        decreases pkgs.len() - i,
    {
        let e: &ReportEntry = &pkgs[i];
        proof {
            assert(dv[i as int] == e@);
        }
        let mut k: usize = 0;
        proof {
            assert(r.deep_view() =~= flatten_spec(dv.take(i as int)) + e.deps.deep_view().take(0));
        }
        while k < e.deps.len()
            invariant
                k <= e.deps.len(),
                dv == pkgs.deep_view(),
                e.deps.deep_view().len() == e.deps@.len(),
                r.deep_view() == flatten_spec(dv.take(i as int)) + e.deps.deep_view().take(
                    k as int,
                ),
            decreases e.deps.len() - k,
        {
            let ghost old_r = r.deep_view();
            r.push(e.deps[k].clone());
            proof {
                assert(e.deps.deep_view()[k as int] == e.deps@[k as int]@);
                assert(r.deep_view() =~= old_r.push(e.deps.deep_view()[k as int]));
                assert(old_r.push(e.deps.deep_view()[k as int]) =~= flatten_spec(
                    dv.take(i as int),
                ) + e.deps.deep_view().take(k + 1));
            }
            k += 1;
        }
        proof {
            assert(e.deps.deep_view().take(e.deps@.len() as int) =~= e.deps.deep_view());
            assert(dv.take(i + 1).drop_last() =~= dv.take(i as int));
            assert(dv.take(i + 1).last() == dv[i as int]);
            assert(r.deep_view() == flatten_spec(dv.take(i + 1)));
        }
        i += 1;
    }
    proof {
        assert(dv.take(pkgs@.len() as int) =~= dv);
    }
    r
}

fn dedup_names(v: &Vec<String>) -> (r: Vec<String>)
    ensures
        r.deep_view().no_duplicates(),
        forall|d: Seq<char>|
            #[trigger] r.deep_view().contains(d) <==> v.deep_view().contains(d),
{
    let ghost dv = v.deep_view();
    let mut r: Vec<String> = Vec::new();
    let mut i: usize = 0;
    while i < v.len()
        invariant
            i <= v.len(),
            dv == v.deep_view(),
            dv.len() == v@.len(),
            r.deep_view().no_duplicates(),
            forall|d: Seq<char>|
                #[trigger] r.deep_view().contains(d) <==> dv.take(i as int).contains(d),
        decreases v.len() - i,
    {
        let item: &String = &v[i];
        let ghost old_r = r.deep_view();
        proof {
            assert(dv[i as int] == item@);
            assert(dv.take(i + 1).drop_last() =~= dv.take(i as int));
        }
        if !contains_string(&r, item) {
            r.push(item.clone());
            proof {
                assert(r.deep_view() =~= old_r.push(item@));
                assert forall|ii: int, jj: int|
                    0 <= ii < jj < r.deep_view().len() implies r.deep_view()[ii]
                    != r.deep_view()[jj] by {
                    if jj == old_r.len() {
                        assert(old_r.contains(old_r[ii]));
                    }
                }
            }
        }
        proof {
            assert forall|d: Seq<char>|
                #[trigger] r.deep_view().contains(d) <==> dv.take(i + 1).contains(d) by {
                if r.deep_view().contains(d) {
                    let k = choose|k: int|
                        0 <= k < r.deep_view().len() && r.deep_view()[k] == d;
                    if k < old_r.len() {
                        assert(old_r.contains(d));
                        let k2 = choose|k2: int|
                            0 <= k2 < dv.take(i as int).len() && dv.take(i as int)[k2] == d;
                        assert(dv.take(i + 1)[k2] == d);
                        assert(dv.take(i + 1).contains(d));
                    } else {
                        assert(dv.take(i + 1)[i as int] == d);
                        assert(dv.take(i + 1).contains(d));
                    }
                }
                if dv.take(i + 1).contains(d) {
                    let k = choose|k: int|
                        0 <= k < dv.take(i + 1).len() && #[trigger] dv.take(i + 1)[k] == d;
                    if k < i {
                        assert(dv.take(i as int)[k] == d);
                        assert(dv.take(i as int).contains(d));
                        assert(old_r.contains(d));
                        let k2 = choose|k2: int| 0 <= k2 < old_r.len() && old_r[k2] == d;
                        assert(r.deep_view()[k2] == d);
                        assert(r.deep_view().contains(d));
                    } else {
                        assert(d == item@);
                        if old_r.contains(d) {
                            let k2 = choose|k2: int| 0 <= k2 < old_r.len() && old_r[k2] == d;
                            assert(r.deep_view()[k2] == d);
                            assert(r.deep_view().contains(d));
                        } else {
                            assert(r.deep_view()[old_r.len() as int] == d);
                            assert(r.deep_view().contains(d));
                        }
                    }
                }
            }
        }
        i += 1;
    }
    proof {
        assert(dv.take(v@.len() as int) =~= dv);
    }
    r
}

/// What makes `t` a correct frequency table for `pkgs`: every row
/// carries a listed name's exact count, no name repeats, and every
/// listed name has a row.
pub open spec fn counts_ok(pkgs: Seq<(Seq<char>, Seq<Seq<char>>)>, t: Seq<(String, usize)>) -> bool {
    &&& forall|j: int|
        0 <= j < t.len() ==> (#[trigger] t[j]).1 as nat == freq_spec(t[j].0@, pkgs)
    &&& forall|j: int| 0 <= j < t.len() ==> (#[trigger] t[j]).1 >= 1
    &&& forall|i: int, j: int| 0 <= i < j < t.len() ==> t[i].0@ != t[j].0@
    &&& forall|d: Seq<char>|
        #[trigger] corpus_has_dep(pkgs, d) <==> exists|j: int|
            0 <= j < t.len() && (#[trigger] t[j]).0@ == d
}

/// Tallies, for every dependency name some reported package lists, how
/// many of the reported packages list it. Each name appears exactly
/// once in the table.
pub fn count_deps(pkgs: &Vec<ReportEntry>) -> (t: Vec<(String, usize)>)
    ensures
        counts_ok(pkgs.deep_view(), t@),
{
    let flat = flatten_deps(pkgs);
    let names = dedup_names(&flat);
    let mut t: Vec<(String, usize)> = Vec::new();
    let mut j: usize = 0;
    while j < names.len()
        invariant
            j <= names.len(),
            names.deep_view().len() == names@.len(),
            names.deep_view().no_duplicates(),
            t@.len() == j,
            forall|k: int| 0 <= k < j ==> (#[trigger] t@[k]).0@ == names.deep_view()[k],
            forall|k: int|
                0 <= k < j ==> (#[trigger] t@[k]).1 as nat == freq_spec(
                    t@[k].0@,
                    pkgs.deep_view(),
                ),
        decreases names.len() - j,
    {
        let name: &String = &names[j];
        proof {
            assert(names.deep_view()[j as int] == name@);
        }
        let c = count_one(pkgs, name);
        t.push((name.clone(), c));
        j += 1;
    }
    proof {
        assert forall|i: int, jj: int| 0 <= i < jj < t@.len() implies t@[i].0@ != t@[jj].0@ by {
            assert(t@[i].0@ == names.deep_view()[i]);
            assert(t@[jj].0@ == names.deep_view()[jj]);
        }
        assert forall|k: int| 0 <= k < t@.len() implies (#[trigger] t@[k]).1 >= 1 by {
            assert(names.deep_view()[k] == t@[k].0@);
            assert(names.deep_view().contains(t@[k].0@));
            assert(flat.deep_view().contains(t@[k].0@));
            lemma_flatten_contains(pkgs.deep_view(), t@[k].0@);
            lemma_freq_pos(t@[k].0@, pkgs.deep_view());
        }
        assert forall|d: Seq<char>|
            #[trigger] corpus_has_dep(pkgs.deep_view(), d) <==> exists|k: int|
                0 <= k < t@.len() && t@[k].0@ == d by {
            lemma_flatten_contains(pkgs.deep_view(), d);
            if corpus_has_dep(pkgs.deep_view(), d) {
                assert(flat.deep_view().contains(d));
                assert(names.deep_view().contains(d));
                let k = choose|k: int|
                    0 <= k < names.deep_view().len() && names.deep_view()[k] == d;
                assert(t@[k].0@ == d);
            }
            if exists|k: int| 0 <= k < t@.len() && (#[trigger] t@[k]).0@ == d {
                let k = choose|k: int| 0 <= k < t@.len() && (#[trigger] t@[k]).0@ == d;
                assert(names.deep_view()[k] == d);
                assert(names.deep_view().contains(d));
                assert(flat.deep_view().contains(d));
            }
        }
    }
    t
}

/// The whole reporting stage: the significant packages and the
/// frequency of every residual dependency name among them. Packages at
/// or below the threshold appear in neither artifact.
pub fn build_report(ms: &Vec<Manifest>, threshold: usize) -> (r: (
    Vec<ReportEntry>,
    Vec<(String, usize)>,
))
    ensures
        r.0.deep_view() == significant_spec(ms.deep_view(), threshold as int),
        counts_ok(r.0.deep_view(), r.1@),
{
    let entries = significant_packages(ms, threshold);
    let counts = count_deps(&entries);
    (entries, counts)
}

} // verus!
