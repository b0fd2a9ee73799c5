use vstd::prelude::*;

verus! {

/// A symbolic literal as seen by proofs: the variable's name and its polarity.
pub type NamedLit = (Seq<char>, bool);

/// An indexed literal: the variable's index and its polarity.
pub type IndexedLit = (usize, bool);

/// Every variable name that occurs somewhere in the formula.
pub open spec fn formula_names(f: Seq<Seq<NamedLit>>) -> Set<Seq<char>> {
    Set::new(
        |n: Seq<char>|
            exists|i: int, j: int| 0 <= i < f.len() && 0 <= j < f[i].len() && #[trigger] f[i][j].0 == n,
    )
}

/// Some literal of the clause occurs among the given literals.
pub open spec fn clause_met_by<T>(c: Seq<(T, bool)>, m: Seq<(T, bool)>) -> bool {
    exists|j: int, k: int| 0 <= j < c.len() && 0 <= k < m.len() && #[trigger] c[j] == #[trigger] m[k]
}

/// Every clause has a literal among the given literals.
pub open spec fn formula_met_by<T>(f: Seq<Seq<(T, bool)>>, m: Seq<(T, bool)>) -> bool {
    forall|i: int| 0 <= i < f.len() ==> clause_met_by(#[trigger] f[i], m)
}

/// The clause holds under the total assignment `a`.
pub open spec fn clause_holds<T>(c: Seq<(T, bool)>, a: spec_fn(T) -> bool) -> bool {
    exists|j: int| 0 <= j < c.len() && a(#[trigger] c[j].0) == c[j].1
}

/// Every clause holds under the total assignment `a`.
pub open spec fn formula_holds<T>(f: Seq<Seq<(T, bool)>>, a: spec_fn(T) -> bool) -> bool {
    forall|i: int| 0 <= i < f.len() ==> clause_holds(#[trigger] f[i], a)
}

/// Some total assignment makes every clause hold.
pub open spec fn satisfiable<T>(f: Seq<Seq<(T, bool)>>) -> bool {
    exists|a: spec_fn(T) -> bool| formula_holds(f, a)
}

/// The variables of a list of literals, in order.
pub open spec fn vars_of<T>(m: Seq<(T, bool)>) -> Seq<T> {
    m.map_values(|l: (T, bool)| l.0)
}

} // verus!

verus! {

/// `e` is `f` with every name replaced by its index in `names`: same clause
/// count, same clause lengths, same literal order, same polarities.
pub open spec fn encodes(names: Seq<Seq<char>>, f: Seq<Seq<NamedLit>>, e: Seq<Seq<IndexedLit>>) -> bool {
    &&& e.len() == f.len()
    &&& forall|i: int| 0 <= i < f.len() ==> (#[trigger] e[i]).len() == f[i].len()
    &&& forall|i: int, j: int|
        0 <= i < f.len() && 0 <= j < f[i].len() ==> {
            &&& (#[trigger] e[i][j]).0 < names.len()
            &&& names[e[i][j].0 as int] == f[i][j].0
            &&& e[i][j].1 == f[i][j].1
        }
}

/// Each indexed literal of `m` with its index replaced by the name there.
pub open spec fn decoded(names: Seq<Seq<char>>, m: Seq<IndexedLit>) -> Seq<NamedLit> {
    m.map_values(|l: IndexedLit| (names[l.0 as int], l.1))
}

/// Every index used in `m` has a name.
pub open spec fn indices_named(names: Seq<Seq<char>>, m: Seq<IndexedLit>) -> bool {
    forall|k: int| 0 <= k < m.len() ==> (#[trigger] m[k]).0 < names.len()
}

/// Every index used in `m` is at most some index used in the clauses of `f`.
pub open spec fn indices_bounded_by(m: Seq<IndexedLit>, f: Seq<Seq<IndexedLit>>) -> bool {
    forall|k: int|
        0 <= k < m.len() ==> exists|i: int, j: int|
            0 <= i < f.len() && 0 <= j < f[i].len() && (#[trigger] m[k]).0 <= #[trigger] f[i][j].0
}

/// A list of literals that names each variable at most once and meets every
/// clause gives an assignment under which the formula holds: its variables
/// take the listed values, all others are false.
pub proof fn lemma_met_formula_satisfiable<T>(f: Seq<Seq<(T, bool)>>, m: Seq<(T, bool)>)
    requires
        vars_of(m).no_duplicates(),
        formula_met_by(f, m),
    ensures
        satisfiable(f),
{
    let a = |x: T| exists|k: int| 0 <= k < m.len() && #[trigger] m[k] == (x, true);
    assert forall|i: int| 0 <= i < f.len() implies clause_holds(#[trigger] f[i], a) by {
        assert(clause_met_by(f[i], m));
        let (j, k) = choose|j: int, k: int|
            0 <= j < f[i].len() && 0 <= k < m.len() && #[trigger] f[i][j] == #[trigger] m[k];
        if !m[k].1 {
            assert forall|k2: int| 0 <= k2 < m.len() implies m[k2] != (f[i][j].0, true) by {
                if k2 != k {
                    assert(vars_of(m)[k2] != vars_of(m)[k]);
                }
            };
        }
        assert(a(f[i][j].0) == f[i][j].1);
    };
    assert(formula_holds(f, a));
}

} // verus!
