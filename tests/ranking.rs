use coogle_rs::parse::parse_query;
use coogle_rs::rank::{rank, rank_scores, TOP_RESULTS};
use coogle_rs::score::{fuzzy_match, score_order_key, SCORE_ONE};
use coogle_rs::signature::{declared_params, Function, FunctionSignature};

fn sig(ret: &str, params: &[&str]) -> FunctionSignature {
    FunctionSignature {
        return_type: ret.to_string(),
        params: params.iter().map(|p| p.to_string()).collect(),
        is_variadic: false,
    }
}

fn func(name: &str, ret: &str, params: &[&str], line: u32) -> Function {
    Function {
        name: name.to_string(),
        location: ("lib.c".to_string(), line, 1),
        signature: sig(ret, params),
    }
}

fn score(f: &FunctionSignature, q: &FunctionSignature) -> f64 {
    f64::from_bits(fuzzy_match(f, q))
}

#[test]
fn canonical_int_pair() {
    assert_eq!(sig("int", &["int", "int"]).canonical(), "int(int,int,)");
}

#[test]
fn canonical_zero_params_vs_void() {
    let none = sig("int", &[]).canonical();
    let void = sig("int", &["void"]).canonical();
    assert_eq!(none, "int()");
    assert_eq!(void, "int(void,)");
    assert_ne!(none, void);
}

#[test]
fn canonical_ignores_variadic_flag() {
    let mut s = sig("int", &["char*"]);
    s.is_variadic = true;
    assert_eq!(s.canonical(), "int(char*,)");
}

#[test]
fn fuzzy_match_self_is_one() {
    let s = sig("char*", &["char*", "char*"]);
    assert_eq!(fuzzy_match(&s, &s), SCORE_ONE);
    assert_eq!(score(&s, &s), 1.0);
    let empty = sig("", &[]);
    assert_eq!(score(&empty, &empty), 1.0);
}

#[test]
fn fuzzy_match_different_is_below_one() {
    let a = sig("int", &["int", "int"]);
    let b = sig("double", &["float"]);
    let s = score(&a, &b);
    assert!(s < 1.0);
    assert!(s >= 0.0);
    let expected = strsim::jaro_winkler("int(int,int,)", "double(float,)");
    assert_eq!(s, expected);
}

#[test]
fn score_order_key_orders_numbers_and_nan() {
    let values = [f64::NEG_INFINITY, -1.0, -0.0, 0.0, 0.25, 0.5, 1.0, f64::INFINITY];
    for w in values.windows(2) {
        assert!(score_order_key(w[0].to_bits()) < score_order_key(w[1].to_bits()));
    }
    assert_eq!(score_order_key(f64::NAN.to_bits()), 0);
    assert_eq!(score_order_key((-f64::NAN).to_bits()), 0);
    assert!(score_order_key(f64::NEG_INFINITY.to_bits()) > 0);
}

#[test]
fn rank_scores_stable_and_nan_last() {
    let scores: Vec<u64> = [0.5, f64::NAN, 1.0, 0.5].iter().map(|s: &f64| s.to_bits()).collect();
    assert_eq!(rank_scores(&scores, 3), vec![2, 0, 3]);
    assert_eq!(rank_scores(&scores, 10), vec![2, 0, 3, 1]);
    assert_eq!(rank_scores(&scores, 0), Vec::<usize>::new());
    assert_eq!(rank_scores(&Vec::new(), 5), Vec::<usize>::new());
}

#[test]
fn rank_length_is_clamped() {
    let query = parse_query("int(int)");
    let cands = vec![
        func("a", "int", &["int"], 1),
        func("b", "char", &["int"], 2),
        func("c", "void", &[], 3),
    ];
    assert_eq!(rank(&cands, &query, 2).len(), 2);
    assert_eq!(rank(&cands, &query, TOP_RESULTS).len(), 3);
    assert_eq!(rank(&Vec::new(), &query, TOP_RESULTS).len(), 0);
}

#[test]
fn rank_is_sorted_by_score() {
    let query = parse_query("int -> (char*, int)");
    let cands = vec![
        func("strlen", "unsigned long", &["const char *"], 1),
        func("atoi", "int", &["const char *"], 2),
        func("find", "int", &["char*", "int"], 3),
        func("noop", "void", &["void"], 4),
    ];
    let order = rank(&cands, &query, TOP_RESULTS);
    assert_eq!(order.len(), 4);
    assert_eq!(order[0], 2);
    for w in order.windows(2) {
        let a = score(&cands[w[0]].signature, &query);
        let b = score(&cands[w[1]].signature, &query);
        assert!(a >= b);
    }
}

#[test]
fn end_to_end_add_ranks_first() {
    let cands = vec![
        func("add", "int", &["int", "int"], 1),
        func("concat", "char*", &["char*", "char*"], 5),
    ];
    let query = parse_query("int -> (int, int)");
    let order = rank(&cands, &query, TOP_RESULTS);
    assert_eq!(order.len(), 2);
    assert_eq!(cands[order[0]].name, "add");
}

#[test]
fn declared_params_substitutes_void() {
    assert_eq!(declared_params(Vec::new()), vec!["void".to_string()]);
    let given = vec!["int".to_string(), "char*".to_string()];
    assert_eq!(declared_params(given.clone()), given);
}
