use vstd::prelude::*;

use crate::cnf::{encodes, formula_names, IndexedLit, NamedLit};

verus! {

/// The variable registry: index `i` stands for the `i`-th name.
///
/// Names are pairwise distinct, so the map from names to indices and its
/// inverse are both given by the one list.
pub struct VarRegistry {
    names: Vec<String>,
}

impl View for VarRegistry {
    type V = Seq<Seq<char>>;

    closed spec fn view(&self) -> Seq<Seq<char>> {
        self.names.deep_view()
    }
}

impl VarRegistry {
    /// No name is registered twice.
    pub open spec fn wf(&self) -> bool {
        self@.no_duplicates()
    }

    /// An empty registry.
    pub fn new() -> (r: VarRegistry)
        ensures
            r.wf(),
            r@ == Seq::<Seq<char>>::empty(),
    {
        VarRegistry { names: Vec::new() }
    }

    /// The number of registered names.
    pub fn len(&self) -> (r: usize)
        ensures
            r == self@.len(),
    {
        self.names.len()
    }

    /// The index of `name`, if it is registered.
    pub fn index_of(&self, name: &String) -> (r: Option<usize>)
        requires
            self.wf(),
        ensures
            match r {
                Some(i) => i < self@.len() && self@[i as int] == name@,
                None => !self@.contains(name@),
            },
    {
        let mut i: usize = 0;
        while i < self.names.len()
            invariant
                i <= self.names.len(),
                self@.len() == self.names.len(),
                forall|k: int| 0 <= k < i ==> self@[k] != name@,
            decreases self.names.len() - i,
        {
            if self.names[i] == *name {
                return Some(i);
            }
            i = i + 1;
        }
        None
    }

    /// The name registered at index `i`, if any.
    pub fn name_of(&self, i: usize) -> (r: Option<&String>)
        ensures
            r.is_some() <==> i < self@.len(),
            r.is_some() ==> r.unwrap()@ == self@[i as int],
    {
        if i < self.names.len() {
            Some(&self.names[i])
        } else {
            None
        }
    }

    /// Registers `name` unless it is already there, and returns its index.
    pub fn register(&mut self, name: &String) -> (r: usize)
        requires
            old(self).wf(),
        ensures
            final(self).wf(),
            old(self)@.contains(name@) ==> final(self)@ == old(self)@,
            !old(self)@.contains(name@) ==> final(self)@ == old(self)@.push(name@),
            r < final(self)@.len(),
            final(self)@[r as int] == name@,
    {
        match self.index_of(name) {
            Some(i) => i,
            None => {
                let ghost before = self@;
                self.names.push(name.clone());
                assert(self@ =~= before.push(name@));
                self.names.len() - 1
            },
        }
    }

    /// Builds the registry of a formula: each distinct name occurring in
    /// it is registered exactly once, and nothing else is.
    pub fn from_formula(formula: &Vec<Vec<(String, bool)>>) -> (r: VarRegistry)
        ensures
            r.wf(),
            r@.to_set() == formula_names(formula.deep_view()),
    {
        let ghost f: Seq<Seq<NamedLit>> = formula.deep_view();
        let mut reg = VarRegistry::new();
        let mut i: usize = 0;
        while i < formula.len()
            invariant
                i <= formula.len(),
                f == formula.deep_view(),
                reg.wf(),
                forall|n: Seq<char>| reg@.contains(n) <==>
                    exists|a: int, b: int| 0 <= a < i && 0 <= b < f[a].len() && #[trigger] f[a][b].0 == n,
            decreases formula.len() - i,
        {
            let clause = &formula[i];
            let mut j: usize = 0;
            while j < clause.len()
                invariant
                    i < formula.len(),
                    j <= clause.len(),
                    clause == formula[i as int],
                    f == formula.deep_view(),
                    reg.wf(),
                    forall|n: Seq<char>| reg@.contains(n) <==>
                        (exists|a: int, b: int| 0 <= a < i && 0 <= b < f[a].len() && #[trigger] f[a][b].0 == n)
                        || (exists|b: int| 0 <= b < j && #[trigger] f[i as int][b].0 == n),
                decreases clause.len() - j,
            {
                assert(f[i as int][j as int].0 == clause[j as int].0@);
                let ghost prev = reg@;
                reg.register(&clause[j].0);
                assert forall|n: Seq<char>| reg@.contains(n) <==> (prev.contains(n) || n == f[i as int][j as int].0) by {
                    if n == f[i as int][j as int].0 {
                        assert(reg@.contains(n));
                    }
                    if prev.contains(n) {
                        let k = choose|k: int| 0 <= k < prev.len() && prev[k] == n;
                        assert(reg@[k] == n);
                    }
                };
                assert forall|n: Seq<char>| reg@.contains(n) <==>
                    (exists|a: int, b: int| 0 <= a < i && 0 <= b < f[a].len() && #[trigger] f[a][b].0 == n)
                    || (exists|b: int| 0 <= b < j + 1 && #[trigger] f[i as int][b].0 == n) by {
                    if exists|b: int| 0 <= b < j + 1 && #[trigger] f[i as int][b].0 == n {
                        let b = choose|b: int| 0 <= b < j + 1 && #[trigger] f[i as int][b].0 == n;
                        if b < j {
                            assert(f[i as int][b].0 == n);
                            assert(prev.contains(n));
                        }
                    }
                };
                j = j + 1;
            }
            assert forall|n: Seq<char>| reg@.contains(n) <==>
                exists|a: int, b: int| 0 <= a < i + 1 && 0 <= b < f[a].len() && #[trigger] f[a][b].0 == n by {
                if exists|b: int| 0 <= b < clause.len() && #[trigger] f[i as int][b].0 == n {
                    let b = choose|b: int| 0 <= b < clause.len() && #[trigger] f[i as int][b].0 == n;
                    assert(f[i as int][b].0 == n);
                }
            };
            i = i + 1;
        }
        assert(reg@.to_set() =~= formula_names(f));
        reg
    }
}

/// The registry of a formula is a bijection: there are as many indices as
/// distinct names, every name of the formula has exactly one index, and in
/// an encoding, going from a literal's name to its index and back gives
/// the name again.
pub proof fn lemma_bijection(names: Seq<Seq<char>>, f: Seq<Seq<NamedLit>>, e: Seq<Seq<IndexedLit>>)
    requires
        names.no_duplicates(),
        names.to_set() == formula_names(f),
        encodes(names, f, e),
    ensures
        formula_names(f).finite(),
        formula_names(f).len() == names.len(),
        forall|n: Seq<char>| #[trigger] formula_names(f).contains(n) ==> exists|i: int| 0 <= i < names.len() && names[i] == n,
        forall|i: int, k: int| 0 <= i < names.len() && 0 <= k < names.len() && #[trigger] names[i] == #[trigger] names[k] ==> i == k,
        forall|i: int, j: int| 0 <= i < f.len() && 0 <= j < f[i].len() ==> names[(#[trigger] e[i][j]).0 as int] == f[i][j].0,
{
    names.unique_seq_to_set();
}

} // verus!
