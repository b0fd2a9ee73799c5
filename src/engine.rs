use vstd::prelude::*;

use varisat::ExtendFormula;

use crate::cnf::{formula_met_by, indices_bounded_by, satisfiable, vars_of, IndexedLit};

verus! {

#[verifier::external_type_specification]
#[verifier::external_body]
pub struct ExSolver<'a>(varisat::Solver<'a>);

#[verifier::external_type_specification]
#[verifier::external_body]
pub struct ExSolverError(varisat::solver::SolverError);

/// The largest number of variables the engine supports (`Var::max_count()`):
/// variable indices must stay below it.
pub const MAX_VAR_COUNT: usize = 0x1000_0000;

/// The clauses that have been added to a solver, in order.
pub uninterp spec fn solver_clauses(s: varisat::Solver) -> Seq<Seq<IndexedLit>>;

/// Whether solving may fail: the solver met an unrecoverable error before
/// (solving again panics), or it writes or checks proofs, the only source of
/// solver errors. Neither is ever switched on through this module.
pub uninterp spec fn solver_broken(s: varisat::Solver) -> bool;

/// Whether the last verdict of the solver was "satisfiable", so that it
/// holds a model.
pub uninterp spec fn solver_has_model(s: varisat::Solver) -> bool;

/// Relies on `Solver::new`: a fresh solver holds no clauses and no error.
#[verifier::external_body]
pub(crate) fn new_solver<'a>() -> (r: varisat::Solver<'a>)
    ensures
        solver_clauses(r) == Seq::<Seq<IndexedLit>>::empty(),
        !solver_broken(r),
{
    varisat::Solver::new()
}

/// Relies on `ExtendFormula::add_clause` of `Solver`: the clause is added,
/// each pair turned into a literal by `Lit::from_index`, which wants the
/// index below `Var::max_count()`.
#[verifier::external_body]
pub(crate) fn add_clause(s: &mut varisat::Solver, clause: &Vec<IndexedLit>)
    requires
        forall|k: int| 0 <= k < clause@.len() ==> (#[trigger] clause@[k]).0 < MAX_VAR_COUNT,
    ensures
        solver_clauses(*final(s)) == solver_clauses(*old(s)).push(clause@),
        solver_broken(*final(s)) == solver_broken(*old(s)),
{
    let lits: Vec<varisat::Lit> = clause.iter().map(|&(i, p)| varisat::Lit::from_index(i, p)).collect();
    s.add_clause(&lits);
}

/// Relies on `Solver::solve`: it searches until the verdict is known or a
/// proof step fails, so without proof output it returns `Ok`; `Ok(false)` is
/// the verdict that no assignment satisfies the clauses (no assumptions are
/// ever set through this module), `Ok(true)` leaves the solver in the
/// satisfiable state that holds a model; it panics only on a solver that met
/// an unrecoverable error before.
#[verifier::external_body]
pub(crate) fn solve(s: &mut varisat::Solver) -> (r: Result<bool, varisat::solver::SolverError>)
    requires
        !solver_broken(*old(s)),
    ensures
        solver_clauses(*final(s)) == solver_clauses(*old(s)),
        r.is_ok(),
        r == Ok::<bool, varisat::solver::SolverError>(false) ==> !satisfiable(solver_clauses(*old(s))),
        r == Ok::<bool, varisat::solver::SolverError>(true) ==> solver_has_model(*final(s)),
        !solver_broken(*final(s)),
{
    s.solve()
}

/// Relies on `Solver::model`: present in the satisfiable state, the set of
/// literals that satisfy the formula, one per assigned user variable, each
/// given as the variable's index (`Lit::index`) and its polarity
/// (`Lit::is_positive`). User variables are created only up to the largest
/// index that an added clause uses.
#[verifier::external_body]
pub(crate) fn model(s: &varisat::Solver) -> (r: Option<Vec<IndexedLit>>)
    ensures
        solver_has_model(*s) ==> r.is_some(),
        r.is_some() ==> formula_met_by(solver_clauses(*s), r.unwrap()@),
        r.is_some() ==> indices_bounded_by(r.unwrap()@, solver_clauses(*s)),
        r.is_some() ==> vars_of(r.unwrap()@).no_duplicates(),
{
    s.model().map(|m| m.into_iter().map(|l| (l.index(), l.is_positive())).collect())
}

} // verus!
