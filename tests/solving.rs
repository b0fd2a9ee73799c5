use satrs::codec::{decode, encode};
use satrs::registry::VarRegistry;
use satrs::solve::{sat, SatResult};

fn formula(clauses: &[&[(&str, bool)]]) -> Vec<Vec<(String, bool)>> {
    clauses
        .iter()
        .map(|c| c.iter().map(|(n, p)| (n.to_string(), *p)).collect())
        .collect()
}

fn value_of(a: &[(String, bool)], name: &str) -> Option<bool> {
    a.iter().find(|(n, _)| n == name).map(|(_, v)| *v)
}

fn holds(f: &[Vec<(String, bool)>], a: &[(String, bool)]) -> bool {
    f.iter().all(|c| c.iter().any(|(n, p)| value_of(a, n) == Some(*p)))
}

fn solve_ok(f: &Vec<Vec<(String, bool)>>) -> SatResult {
    match sat(f) {
        Ok(r) => r,
        Err(e) => panic!("solving failed: {:?}", e),
    }
}

#[test]
fn empty_formula_is_satisfiable_with_empty_assignment() {
    let f: Vec<Vec<(String, bool)>> = Vec::new();
    match solve_ok(&f) {
        SatResult::Satisfiable(a) => assert!(a.is_empty()),
        SatResult::Unsatisfiable => panic!("empty formula reported unsatisfiable"),
    }
}

#[test]
fn contradiction_is_unsatisfiable() {
    let f = formula(&[&[("x", true)], &[("x", false)]]);
    assert!(matches!(solve_ok(&f), SatResult::Unsatisfiable));
}

#[test]
fn empty_clause_is_unsatisfiable() {
    let f = formula(&[&[("x", true)], &[]]);
    assert!(matches!(solve_ok(&f), SatResult::Unsatisfiable));
}

#[test]
fn simple_disjunction_is_satisfied() {
    let f = formula(&[&[("x", true), ("y", true)]]);
    match solve_ok(&f) {
        SatResult::Satisfiable(a) => {
            assert!(value_of(&a, "x") == Some(true) || value_of(&a, "y") == Some(true));
            assert!(holds(&f, &a));
        }
        SatResult::Unsatisfiable => panic!("x or y reported unsatisfiable"),
    }
}

#[test]
fn multi_clause_forces_both_true() {
    let f = formula(&[&[("a", true), ("b", false)], &[("b", true)]]);
    match solve_ok(&f) {
        SatResult::Satisfiable(a) => {
            assert_eq!(value_of(&a, "b"), Some(true));
            assert_eq!(value_of(&a, "a"), Some(true));
        }
        SatResult::Unsatisfiable => panic!("satisfiable formula reported unsatisfiable"),
    }
}

#[test]
fn repeated_name_gets_one_index_and_one_value() {
    let mut f = Vec::new();
    for k in 0..20 {
        f.push(vec![("v".to_string(), k % 2 == 0), ("w".to_string(), true)]);
    }
    let reg = VarRegistry::from_formula(&f);
    assert_eq!(reg.len(), 2);
    let enc = encode(&f, &reg);
    let v = reg.index_of(&"v".to_string()).unwrap();
    for c in &enc {
        assert_eq!(c[0].0, v);
    }
    match solve_ok(&f) {
        SatResult::Satisfiable(a) => {
            assert_eq!(a.iter().filter(|(n, _)| n == "v").count(), 1);
            assert_eq!(value_of(&a, "w"), Some(true));
            assert!(holds(&f, &a));
        }
        SatResult::Unsatisfiable => panic!("satisfiable formula reported unsatisfiable"),
    }
}

#[test]
fn registry_is_a_bijection() {
    let f = formula(&[&[("p", true), ("q", false)], &[("q", true), ("r", true), ("p", false)]]);
    let reg = VarRegistry::from_formula(&f);
    assert_eq!(reg.len(), 3);
    for name in ["p", "q", "r"] {
        let n = name.to_string();
        let i = reg.index_of(&n).unwrap();
        assert!(i < 3);
        assert_eq!(reg.name_of(i), Some(&n));
    }
    assert_eq!(reg.index_of(&"s".to_string()), None);
    assert_eq!(reg.name_of(3), None);
}

#[test]
fn registry_numbers_names_in_order_of_first_use() {
    let f = formula(&[&[("b", true)], &[("a", false), ("b", false)]]);
    let reg = VarRegistry::from_formula(&f);
    assert_eq!(reg.name_of(0), Some(&"b".to_string()));
    assert_eq!(reg.name_of(1), Some(&"a".to_string()));
}

#[test]
fn encode_keeps_shape_and_polarity() {
    let f = formula(&[&[("x", true), ("y", false)], &[], &[("y", true)]]);
    let reg = VarRegistry::from_formula(&f);
    let enc = encode(&f, &reg);
    let x = reg.index_of(&"x".to_string()).unwrap();
    let y = reg.index_of(&"y".to_string()).unwrap();
    assert_eq!(enc, vec![vec![(x, true), (y, false)], vec![], vec![(y, true)]]);
}

#[test]
fn encode_of_empty_formula_is_empty() {
    let f: Vec<Vec<(String, bool)>> = Vec::new();
    let reg = VarRegistry::from_formula(&f);
    assert_eq!(reg.len(), 0);
    assert!(encode(&f, &reg).is_empty());
}

#[test]
fn decode_round_trip() {
    let f = formula(&[&[("x", true)], &[("y", false), ("z", true)]]);
    let reg = VarRegistry::from_formula(&f);
    let model = vec![(2, true), (0, false), (1, true)];
    let a = decode(&reg, &model).unwrap();
    assert_eq!(
        a,
        vec![("z".to_string(), true), ("x".to_string(), false), ("y".to_string(), true)]
    );
}

#[test]
fn decode_rejects_unknown_index() {
    let f = formula(&[&[("x", true)]]);
    let reg = VarRegistry::from_formula(&f);
    assert_eq!(decode(&reg, &vec![(0, true), (1, false)]), None);
}

#[test]
fn decode_of_partial_model_omits_names() {
    let f = formula(&[&[("x", true)], &[("y", true)]]);
    let reg = VarRegistry::from_formula(&f);
    let a = decode(&reg, &vec![(1, false)]).unwrap();
    assert_eq!(a, vec![("y".to_string(), false)]);
}

#[test]
fn unsatisfiable_pigeonhole() {
    // two pigeons, one hole
    let f = formula(&[&[("p1", true)], &[("p2", true)], &[("p1", false), ("p2", false)]]);
    assert!(matches!(solve_ok(&f), SatResult::Unsatisfiable));
}

#[test]
fn larger_satisfiable_chain() {
    let mut f = Vec::new();
    for k in 0..30 {
        f.push(vec![(format!("x{}", k), false), (format!("x{}", k + 1), true)]);
    }
    f.push(vec![("x0".to_string(), true)]);
    match solve_ok(&f) {
        SatResult::Satisfiable(a) => {
            assert!(holds(&f, &a));
            assert_eq!(value_of(&a, "x30"), Some(true));
        }
        SatResult::Unsatisfiable => panic!("chain reported unsatisfiable"),
    }
}

#[test]
fn only_model_is_found() {
    let f = formula(&[
        &[("x", true), ("y", true)],
        &[("x", false), ("y", true)],
        &[("x", true), ("y", false)],
    ]);
    match solve_ok(&f) {
        SatResult::Satisfiable(a) => {
            assert_eq!(value_of(&a, "x"), Some(true));
            assert_eq!(value_of(&a, "y"), Some(true));
            assert!(a.len() <= 2);
        }
        SatResult::Unsatisfiable => panic!("satisfiable formula reported unsatisfiable"),
    }
}

#[test]
fn unsatisfiable_is_a_result_not_an_error() {
    let f = formula(&[&[("x", true), ("y", true)], &[("x", false)], &[("y", false)]]);
    assert!(matches!(sat(&f), Ok(SatResult::Unsatisfiable)));
}
