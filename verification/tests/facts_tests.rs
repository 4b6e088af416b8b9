use warden_core::fact_index::FactIndex;
use warden_core::vector_table::{finalize, VectorTable};
use rand::rngs::StdRng;
use rand::SeedableRng;

fn build_kb() -> FactIndex {
    let mut store = FactIndex::new();
    store.add_fact("mci", "capital", "moscow");
    store.add_fact("spb", "capital", "spb");
    store.add_fact("mci", "located_in", "russia");
    store.add_fact("spb", "located_in", "russia");
    store.add_fact("russia", "border", "finland");
    store.add_fact("russia", "border", "china");
    store
}

#[test]
fn facts_answer_exact_queries() {
    let kb = build_kb();
    assert_eq!(kb.objects("mci", "capital"), vec!["moscow"]);
    assert_eq!(kb.objects("russia", "border"), vec!["finland", "china"]);
    assert!(kb.objects("mci", "border").is_empty());
    assert_eq!(kb.len(), 6);
}

#[test]
fn unknown_entity_uses_no_predicates() {
    assert!(build_kb().predicates_used_with("nobody").is_empty());
}

#[test]
fn repeated_facts_are_listed_once() {
    let mut kb = FactIndex::new();
    kb.add_fact("a", "p", "x");
    kb.add_fact("a", "q", "y");
    kb.add_fact("a", "p", "x");
    kb.add_fact("a", "p", "z");
    assert_eq!(kb.objects("a", "p"), vec!["x", "z"]);
    assert_eq!(kb.predicates_used_with("a"), vec!["p", "q"]);
    assert_eq!(kb.len(), 4);
}

fn names(t: &VectorTable) -> Vec<String> {
    t.entries.iter().map(|(n, _)| n.clone()).collect()
}

#[test]
fn finalize_gives_vectors_in_first_seen_order() {
    let kb = build_kb();
    let mut rng = StdRng::seed_from_u64(123);
    let done = finalize(&kb, 16, &mut rng, VectorTable::new(), VectorTable::new());
    assert_eq!(names(&done.entities), vec!["mci", "moscow", "spb", "russia", "finland", "china"]);
    assert_eq!(names(&done.predicates), vec!["capital", "located_in", "border"]);
    for (_, v) in done.entities.entries.iter().chain(done.predicates.entries.iter()) {
        assert_eq!(v.len(), 16);
        assert!(v.iter().all(|&x| x == 1 || x == -1));
    }
    assert!(done.entities.fits(16));
    assert!(done.predicates.fits(16));
}

#[test]
fn bundles_are_sums_of_bound_pairs() {
    let kb = build_kb();
    let mut rng = StdRng::seed_from_u64(7);
    let done = finalize(&kb, 8, &mut rng, VectorTable::new(), VectorTable::new());
    assert_eq!(done.shards.len(), 3);
    let ent = |n: &str| done.entities.get(n).unwrap().clone();
    let border = &done.shards[2];
    assert_eq!(border.0, "border");
    let r = ent("russia");
    let f = ent("finland");
    let c = ent("china");
    for i in 0..8 {
        let want = (r[i] as i64) * (f[i] as i64) + (r[i] as i64) * (c[i] as i64);
        assert_eq!(border.1[i], want);
    }
    let capital = &done.shards[0];
    assert_eq!(capital.0, "capital");
    let s = ent("spb");
    for i in 0..8 {
        let want = (ent("mci")[i] as i64) * (ent("moscow")[i] as i64) + (s[i] as i64) * (s[i] as i64);
        assert_eq!(capital.1[i], want);
    }
}

#[test]
fn finalize_keeps_vectors_already_given() {
    let kb = build_kb();
    let given = VectorTable { entries: vec![("russia".to_string(), vec![1i8, -1, 1, -1])] };
    let mut rng = StdRng::seed_from_u64(1);
    let done = finalize(&kb, 4, &mut rng, given, VectorTable::new());
    assert_eq!(done.entities.entries[0], ("russia".to_string(), vec![1i8, -1, 1, -1]));
    assert_eq!(names(&done.entities), vec!["russia", "mci", "moscow", "spb", "finland", "china"]);
}

#[test]
fn tables_that_do_not_fit_are_refused() {
    let wrong_len = VectorTable { entries: vec![("a".to_string(), vec![1i8, 1])] };
    assert!(!wrong_len.fits(3));
    let not_bipolar = VectorTable { entries: vec![("a".to_string(), vec![1i8, 0, 1])] };
    assert!(!not_bipolar.fits(3));
    let twice = VectorTable { entries: vec![("a".to_string(), vec![1i8]), ("a".to_string(), vec![-1i8])] };
    assert!(!twice.fits(1));
    let ok = VectorTable { entries: vec![("a".to_string(), vec![1i8]), ("b".to_string(), vec![-1i8])] };
    assert!(ok.fits(1));
    assert_eq!(ok.get("b"), Some(&vec![-1i8]));
    assert_eq!(ok.get("c"), None);
}

#[test]
fn query_exact() {
    let kb = build_kb();
    let mut rng = StdRng::seed_from_u64(123);
    let done = finalize(&kb, 128, &mut rng, VectorTable::new(), VectorTable::new());
    assert!(done.entities.get("moscow").is_some());
    let res = kb.objects("mci", "capital");
    assert!(!res.is_empty());
    assert_eq!(res[0], "moscow");
}

#[test]
fn predicates_used() {
    let mut preds = build_kb().predicates_used_with("mci");
    preds.sort();
    assert_eq!(preds, vec!["capital", "located_in"]);
}
