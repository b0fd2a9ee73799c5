use vstd::prelude::*;

use crate::cnf::{
    encodes, formula_holds, formula_met_by, formula_names, indices_named, lemma_met_formula_satisfiable, satisfiable, vars_of,
    NamedLit,
};
use crate::codec::{decode, encode, lemma_decoded_vars_distinct, lemma_decoding_meets_formula, lemma_encoding_unsat};
use crate::engine::{add_clause, model, new_solver, solve, solver_broken, solver_clauses, MAX_VAR_COUNT};
use crate::registry::VarRegistry;

verus! {

/// The verdict on a formula.
#[derive(Debug)]
pub enum SatResult {
    /// No assignment of the variables makes every clause true.
    Unsatisfiable,
    /// An assignment, as pairs of a name and its value, that makes every
    /// clause true. Names the engine left unassigned are absent.
    Satisfiable(Vec<(String, bool)>),
}

/// Why a formula could not be decided. Only `TooManyVariables` is ever
/// returned by `sat`: its contract shows that the engine, as this library
/// drives it, neither fails nor hands back a model that disagrees with the
/// registry. The other variants name the fatal outcomes that the pipeline
/// would report were that not so.
#[derive(Debug)]
pub enum SatError {
    /// The formula has more distinct variables than the engine supports.
    TooManyVariables,
    /// The engine failed while solving.
    Engine(varisat::solver::SolverError),
    /// The engine reported a satisfiable formula but gave no model.
    MissingModel,
    /// The engine's model holds a variable that no name stands for.
    UnknownVariable,
}

impl SatError {
    pub open spec fn is_too_many_variables(&self) -> bool {
        self is TooManyVariables
    }
}

/// The assignment `a` is a model of `f`: it names each variable at most
/// once, only variables of `f`, and meets every clause.
pub open spec fn is_model_of(a: Seq<NamedLit>, f: Seq<Seq<NamedLit>>) -> bool {
    &&& vars_of(a).no_duplicates()
    &&& vars_of(a).to_set().subset_of(formula_names(f))
    &&& formula_met_by(f, a)
}

/// Decides whether the clauses of `formula` can all be made true.
///
/// Each clause is a disjunction of pairs of a variable name and a polarity
/// (`true` for the variable, `false` for its negation); the formula is
/// their conjunction. The names are numbered, the numbered formula is
/// handed to a fresh engine, and a model is translated back to names.
pub fn sat(formula: &Vec<Vec<(String, bool)>>) -> (r: Result<SatResult, SatError>)
    ensures
        formula@.len() == 0 ==> (r matches Ok(SatResult::Satisfiable(a)) && a@.len() == 0),
        r.is_err() <==> formula_names(formula.deep_view()).len() > MAX_VAR_COUNT,
        r matches Err(e) ==> e.is_too_many_variables(),
        r matches Ok(SatResult::Unsatisfiable) <==> (r.is_ok() && !satisfiable(formula.deep_view())),
        r matches Ok(SatResult::Satisfiable(a)) ==> is_model_of(a.deep_view(), formula.deep_view()),
{
    let ghost f: Seq<Seq<NamedLit>> = formula.deep_view();
    let reg = VarRegistry::from_formula(formula);
    proof {
        reg@.unique_seq_to_set();
    }
    if formula.len() == 0 {
        assert(formula_names(f) =~= Set::<Seq<char>>::empty());
        assert(formula_holds(f, |n: Seq<char>| true));
        return Ok(SatResult::Satisfiable(Vec::new()));
    }
    if reg.len() > MAX_VAR_COUNT {
        return Err(SatError::TooManyVariables);
    }
    let enc = encode(formula, &reg);
    let ghost e = enc.deep_view();
    let mut solver = new_solver();
    let mut i: usize = 0;
    while i < enc.len()
        invariant
            i <= enc.len(),
            e == enc.deep_view(),
            e.len() == f.len(),
            reg@.len() <= MAX_VAR_COUNT,
            encodes(reg@, f, e),
            solver_clauses(solver) == e.take(i as int),
            !solver_broken(solver),
        decreases enc.len() - i,
    {
        assert(enc[i as int]@ == e[i as int]);
        assert forall|k: int| 0 <= k < enc[i as int]@.len() implies (#[trigger] enc[i as int]@[k]).0 < MAX_VAR_COUNT by {
            assert(e[i as int][k].0 < reg@.len());
        };
        add_clause(&mut solver, &enc[i]);
        assert(e.take(i + 1) =~= e.take(i as int).push(e[i as int]));
        i = i + 1;
    }
    assert(e.take(i as int) =~= e);
    match solve(&mut solver) {
        Err(err) => Err(SatError::Engine(err)),
        Ok(false) => {
            proof {
                lemma_encoding_unsat(reg@, f, e);
            }
            Ok(SatResult::Unsatisfiable)
        },
        Ok(true) => match model(&solver) {
            None => Err(SatError::MissingModel),
            Some(m) => {
                proof {
                    assert forall|k: int| 0 <= k < m@.len() implies (#[trigger] m@[k]).0 < reg@.len() by {
                        let (a, b) = choose|a: int, b: int|
                            0 <= a < e.len() && 0 <= b < e[a].len() && m@[k].0 <= #[trigger] e[a][b].0;
                    };
                    assert(indices_named(reg@, m@));
                }
                match decode(&reg, &m) {
                    None => Err(SatError::UnknownVariable),
                    Some(a) => {
                        proof {
                            lemma_decoding_meets_formula(reg@, f, e, m@);
                            lemma_decoded_vars_distinct(reg@, m@);
                            assert forall|n: Seq<char>| vars_of(a.deep_view()).to_set().contains(n)
                                implies formula_names(f).contains(n) by {
                                let k = choose|k: int| 0 <= k < a.deep_view().len() && vars_of(a.deep_view())[k] == n;
                                assert(reg@.contains(n));
                            };
                            lemma_met_formula_satisfiable(f, a.deep_view());
                        }
                        Ok(SatResult::Satisfiable(a))
                    },
                }
            },
        },
    }
}

} // verus!
