use vstd::prelude::*;

use crate::cnf::{
    clause_holds, clause_met_by, decoded, encodes, formula_holds, formula_met_by, formula_names,
    indices_named, satisfiable, vars_of, IndexedLit, NamedLit,
};
use crate::registry::VarRegistry;

verus! {

/// Rewrites every literal of `formula` with its variable's index in `reg`.
pub fn encode(formula: &Vec<Vec<(String, bool)>>, reg: &VarRegistry) -> (r: Vec<Vec<IndexedLit>>)
    requires
        reg.wf(),
        formula_names(formula.deep_view()).subset_of(reg@.to_set()),
    ensures
        encodes(reg@, formula.deep_view(), r.deep_view()),
{
    let ghost f: Seq<Seq<NamedLit>> = formula.deep_view();
    let mut out: Vec<Vec<IndexedLit>> = Vec::new();
    let mut i: usize = 0;
    while i < formula.len()
        invariant
            i <= formula.len(),
            f == formula.deep_view(),
            reg.wf(),
            formula_names(f).subset_of(reg@.to_set()),
            out.len() == i,
            forall|a: int| 0 <= a < i ==> (#[trigger] out.deep_view()[a]).len() == f[a].len(),
            forall|a: int, b: int|
                0 <= a < i && 0 <= b < f[a].len() ==> {
                    &&& (#[trigger] out.deep_view()[a][b]).0 < reg@.len()
                    &&& reg@[out.deep_view()[a][b].0 as int] == f[a][b].0
                    &&& out.deep_view()[a][b].1 == f[a][b].1
                },
        decreases formula.len() - i,
    {
        let clause = &formula[i];
        let mut c: Vec<IndexedLit> = Vec::new();
        let mut j: usize = 0;
        while j < clause.len()
            invariant
                i < formula.len(),
                j <= clause.len(),
                clause == formula[i as int],
                f == formula.deep_view(),
                reg.wf(),
                formula_names(f).subset_of(reg@.to_set()),
                c.len() == j,
                forall|b: int|
                    0 <= b < j ==> {
                        &&& (#[trigger] c@[b]).0 < reg@.len()
                        &&& reg@[c@[b].0 as int] == f[i as int][b].0
                        &&& c@[b].1 == f[i as int][b].1
                    },
            decreases clause.len() - j,
        {
            let (name, polarity) = (&clause[j].0, clause[j].1);
            assert(f[i as int][j as int].0 == name@);
            assert(formula_names(f).contains(name@));
            match reg.index_of(name) {
                Some(idx) => {
                    c.push((idx, polarity));
                },
                None => {
                    assert(reg@.to_set().contains(name@));
                    assert(false);
                },
            }
            j = j + 1;
        }
        let ghost prev = out.deep_view();
        assert(c.deep_view() =~= c@);
        out.push(c);
        assert(out.deep_view() =~= prev.push(c@));
        i = i + 1;
    }
    out
}

/// Replaces the index of every literal of `model` with its name in `reg`;
/// fails when some index has no name.
pub fn decode(reg: &VarRegistry, model: &Vec<IndexedLit>) -> (r: Option<Vec<(String, bool)>>)
    ensures
        r.is_some() <==> indices_named(reg@, model@),
        r.is_some() ==> r.unwrap().deep_view() == decoded(reg@, model@),
{
    let mut out: Vec<(String, bool)> = Vec::new();
    let mut k: usize = 0;
    while k < model.len()
        invariant
            k <= model.len(),
            out.len() == k,
            indices_named(reg@, model@.take(k as int)),
            out.deep_view() == decoded(reg@, model@.take(k as int)),
        decreases model.len() - k,
    {
        let (idx, value) = model[k];
        match reg.name_of(idx) {
            Some(name) => {
                let ghost prev = out.deep_view();
                out.push((name.clone(), value));
                assert(model@.take(k + 1) =~= model@.take(k as int).push(model@[k as int]));
                assert(out.deep_view() =~= prev.push((name@, value)));
                assert(out.deep_view() =~= decoded(reg@, model@.take(k + 1)));
            },
            None => {
                assert(!indices_named(reg@, model@)) by {
                    assert(model@[k as int].0 == idx);
                };
                return None;
            },
        }
        k = k + 1;
    }
    assert(model@.take(k as int) =~= model@);
    Some(out)
}

/// Encoding keeps satisfiability: an assignment of names that makes the
/// formula hold makes its encoding hold once each index takes the value of
/// its name.
pub proof fn lemma_encoding_keeps_models(
    names: Seq<Seq<char>>,
    f: Seq<Seq<NamedLit>>,
    e: Seq<Seq<IndexedLit>>,
    a: spec_fn(Seq<char>) -> bool,
)
    requires
        encodes(names, f, e),
        formula_holds(f, a),
    ensures
        formula_holds(e, |i: usize| a(names[i as int])),
{
    let b = |i: usize| a(names[i as int]);
    assert forall|i: int| 0 <= i < e.len() implies clause_holds(#[trigger] e[i], b) by {
        assert(clause_holds(f[i], a));
        let j = choose|j: int| 0 <= j < f[i].len() && a(#[trigger] f[i][j].0) == f[i][j].1;
        assert(e[i][j].0 < names.len());
        assert(b(e[i][j].0) == e[i][j].1);
    };
}

/// An indexed formula that has no satisfying assignment encodes a symbolic
/// formula that has none either.
pub proof fn lemma_encoding_unsat(names: Seq<Seq<char>>, f: Seq<Seq<NamedLit>>, e: Seq<Seq<IndexedLit>>)
    requires
        encodes(names, f, e),
        !satisfiable(e),
    ensures
        !satisfiable(f),
{
    if satisfiable(f) {
        let a = choose|a: spec_fn(Seq<char>) -> bool| formula_holds(f, a);
        lemma_encoding_keeps_models(names, f, e, a);
        assert(satisfiable(e));
    }
}

/// Decoding a set of literals that meets every clause of the encoding gives
/// a set of named literals that meets every clause of the formula.
pub proof fn lemma_decoding_meets_formula(
    names: Seq<Seq<char>>,
    f: Seq<Seq<NamedLit>>,
    e: Seq<Seq<IndexedLit>>,
    m: Seq<IndexedLit>,
)
    requires
        encodes(names, f, e),
        formula_met_by(e, m),
        indices_named(names, m),
    ensures
        formula_met_by(f, decoded(names, m)),
{
    let d = decoded(names, m);
    assert forall|i: int| 0 <= i < f.len() implies clause_met_by(#[trigger] f[i], d) by {
        assert(clause_met_by(e[i], m));
        let (j, k) = choose|j: int, k: int|
            0 <= j < e[i].len() && 0 <= k < m.len() && #[trigger] e[i][j] == #[trigger] m[k];
        assert(f[i][j] == d[k]);
    };
}

/// Decoding keeps variables apart: distinct indices with distinct names
/// give distinct names, so no name gets two values.
pub proof fn lemma_decoded_vars_distinct(names: Seq<Seq<char>>, m: Seq<IndexedLit>)
    requires
        names.no_duplicates(),
        vars_of(m).no_duplicates(),
        indices_named(names, m),
    ensures
        vars_of(decoded(names, m)).no_duplicates(),
{
    let d = decoded(names, m);
    assert forall|x: int, y: int| 0 <= x < d.len() && 0 <= y < d.len() && x != y
        implies vars_of(d)[x] != vars_of(d)[y] by {
        assert(vars_of(m)[x] != vars_of(m)[y]);
        assert(m[x].0 < names.len() && m[y].0 < names.len());
    };
}

/// Round trip: for a registry of the formula and a model that assigns every
/// registered index exactly once, decoding gives back each name of the
/// formula exactly once, with the polarity the model gave its index.
pub proof fn lemma_round_trip(names: Seq<Seq<char>>, f: Seq<Seq<NamedLit>>, m: Seq<IndexedLit>)
    requires
        names.no_duplicates(),
        names.to_set() == formula_names(f),
        vars_of(m).no_duplicates(),
        indices_named(names, m),
        forall|i: int|
            #![trigger names[i]]
            0 <= i < names.len() ==> exists|k: int| 0 <= k < m.len() && m[k].0 == i,
    ensures
        vars_of(decoded(names, m)).no_duplicates(),
        vars_of(decoded(names, m)).to_set() == formula_names(f),
        decoded(names, m).len() == m.len(),
        forall|k: int| 0 <= k < m.len() ==> (#[trigger] decoded(names, m)[k]).1 == m[k].1,
{
    let d = decoded(names, m);
    lemma_decoded_vars_distinct(names, m);
    assert forall|n: Seq<char>| vars_of(d).to_set().contains(n) <==> names.to_set().contains(n) by {
        if vars_of(d).to_set().contains(n) {
            let k = choose|k: int| 0 <= k < d.len() && vars_of(d)[k] == n;
            assert(names[m[k].0 as int] == n);
        }
        if names.to_set().contains(n) {
            let i = choose|i: int| 0 <= i < names.len() && names[i] == n;
            let k = choose|k: int| 0 <= k < m.len() && m[k].0 == i;
            assert(vars_of(d)[k] == n);
        }
    };
    assert(vars_of(d).to_set() =~= names.to_set());
}

} // verus!
