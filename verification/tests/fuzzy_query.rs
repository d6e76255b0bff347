use fuzzy_query::docset::ConstScorer;
use fuzzy_query::error::QueryError;
use fuzzy_query::query::FuzzyTermQuery;
use fuzzy_query::schema::Term;
use fuzzy_query::segment::{InvertedIndex, Searcher, SegmentReader, TermEntry};

fn entry(term: &str, docs: Vec<u32>) -> TermEntry {
    TermEntry { term: term.as_bytes().to_vec(), docs }
}

fn segment(field: u32, max_doc: u32, entries: Vec<TermEntry>) -> SegmentReader {
    SegmentReader { max_doc, indexes: vec![InvertedIndex { field, entries }] }
}

fn collect_docs(scorer: &mut ConstScorer) -> Vec<u32> {
    let mut docs: Vec<u32> = Vec::new();
    while scorer.advance() {
        docs.push(scorer.doc());
        assert_eq!(scorer.score(), 1);
    }
    docs
}

#[test]
fn test_automaton_weight() {
    let country_field: u32 = 0;
    let reader = segment(
        country_field,
        2,
        vec![entry("japan", vec![0]), entry("korea", vec![1])],
    );
    let searcher = Searcher { segments: vec![] };
    let term = Term::from_field_text(country_field, "japon");

    let fuzzy_query = FuzzyTermQuery::new(term, 1, true);
    let weight = fuzzy_query.weight(&searcher, true).unwrap();
    let mut scorer = weight.scorer(&reader).unwrap();
    let scored_docs = collect_docs(&mut scorer);
    assert_eq!(scored_docs.len(), 1, "Expected only 1 document");
    assert_eq!(scored_docs, vec![0]);
    let score = scorer.score() as f32;
    assert!((score - 1f32).abs() < 1e-9);
}

#[test]
fn test_distance_zero_is_exact_match() {
    let reader = segment(0, 2, vec![entry("japan", vec![0]), entry("korea", vec![1])]);

    let present = FuzzyTermQuery::new(Term::from_field_text(0, "japan"), 0, true);
    let mut scorer = present.specialized_weight().scorer(&reader).unwrap();
    assert_eq!(collect_docs(&mut scorer), vec![0]);

    let absent = FuzzyTermQuery::new(Term::from_field_text(0, "japon"), 0, true);
    let mut scorer = absent.specialized_weight().scorer(&reader).unwrap();
    assert_eq!(collect_docs(&mut scorer), Vec::<u32>::new());
}

#[test]
fn test_prefix_distance_zero_matches_prefixes() {
    let reader = segment(0, 2, vec![entry("japan", vec![0]), entry("korea", vec![1])]);
    let query = FuzzyTermQuery::new_prefix(Term::from_field_text(0, "jap"), 0, true);
    let mut scorer = query.specialized_weight().scorer(&reader).unwrap();
    assert_eq!(collect_docs(&mut scorer), vec![0]);
}

#[test]
fn test_exact_mode_rejects_longer_terms() {
    // "japanese" needs three more edits than "japan"; only prefix mode takes it.
    let reader = segment(0, 2, vec![entry("japanese", vec![0])]);
    let exact = FuzzyTermQuery::new(Term::from_field_text(0, "japan"), 1, true);
    let mut scorer = exact.specialized_weight().scorer(&reader).unwrap();
    assert_eq!(collect_docs(&mut scorer), Vec::<u32>::new());

    let prefix = FuzzyTermQuery::new_prefix(Term::from_field_text(0, "japan"), 1, true);
    let mut scorer = prefix.specialized_weight().scorer(&reader).unwrap();
    assert_eq!(collect_docs(&mut scorer), vec![0]);
}

#[test]
fn test_no_duplicate_docs_across_matched_terms() {
    // Document 0 holds two terms within distance 1 of the target; it is
    // reported once, and still scored 1.
    let reader = segment(
        0,
        2,
        vec![entry("japan", vec![0]), entry("japon", vec![0, 1])],
    );
    let query = FuzzyTermQuery::new(Term::from_field_text(0, "japon"), 1, true);
    let mut scorer = query.specialized_weight().scorer(&reader).unwrap();
    assert_eq!(collect_docs(&mut scorer), vec![0, 1]);
}

#[test]
fn test_docs_ascend_and_stay_below_max_doc() {
    let max_doc: u32 = 4;
    let reader = segment(
        0,
        max_doc,
        vec![entry("aapan", vec![3]), entry("japan", vec![1, 3]), entry("korea", vec![2])],
    );
    let query = FuzzyTermQuery::new(Term::from_field_text(0, "japan"), 1, true);
    let mut scorer = query.specialized_weight().scorer(&reader).unwrap();
    let docs = collect_docs(&mut scorer);
    assert_eq!(docs, vec![1, 3]);
    for w in docs.windows(2) {
        assert!(w[0] < w[1]);
    }
    for &d in &docs {
        assert!(d < max_doc);
    }
}

#[test]
fn test_same_query_twice_yields_identical_doc_sets() {
    let reader = segment(
        0,
        3,
        vec![entry("japan", vec![0, 2]), entry("japon", vec![1]), entry("korea", vec![1])],
    );
    let query = FuzzyTermQuery::new(Term::from_field_text(0, "japan"), 1, true);
    let weight = query.specialized_weight();
    let mut first = weight.scorer(&reader).unwrap();
    let mut second = weight.scorer(&reader).unwrap();
    assert_eq!(collect_docs(&mut first), collect_docs(&mut second));
}

#[test]
fn test_transposition_cost_policy() {
    // "jaapn" is one adjacent transposition away from "japan": within
    // distance 1 only when a transposition costs one edit.
    let reader = segment(0, 1, vec![entry("jaapn", vec![0])]);

    let cheap = FuzzyTermQuery::new(Term::from_field_text(0, "japan"), 1, true);
    let mut scorer = cheap.specialized_weight().scorer(&reader).unwrap();
    assert_eq!(collect_docs(&mut scorer), vec![0]);

    let dear = FuzzyTermQuery::new(Term::from_field_text(0, "japan"), 1, false);
    let mut scorer = dear.specialized_weight().scorer(&reader).unwrap();
    assert_eq!(collect_docs(&mut scorer), Vec::<u32>::new());
}

#[test]
fn test_distance_above_bound_is_refused() {
    let reader = segment(0, 2, vec![entry("japan", vec![0])]);
    let query = FuzzyTermQuery::new(Term::from_field_text(0, "japan"), 3, true);
    let weight = query.specialized_weight();
    match weight.scorer(&reader) {
        Err(e) => assert_eq!(e, QueryError::InvalidDistance),
        Ok(_) => panic!("a distance above the bound must be refused"),
    }
}

#[test]
fn test_empty_dictionary_matches_nothing() {
    let reader = segment(0, 5, vec![]);
    let query = FuzzyTermQuery::new(Term::from_field_text(0, "japan"), 2, true);
    let mut scorer = query.specialized_weight().scorer(&reader).unwrap();
    assert!(!scorer.advance());
}

#[test]
fn test_field_without_index_matches_nothing() {
    let reader = segment(7, 2, vec![entry("japan", vec![0])]);
    let query = FuzzyTermQuery::new(Term::from_field_text(0, "japan"), 1, true);
    let mut scorer = query.specialized_weight().scorer(&reader).unwrap();
    assert_eq!(collect_docs(&mut scorer), Vec::<u32>::new());
}

#[test]
fn test_term_accessors() {
    let term = Term::from_field_text(5, "tokyo");
    assert_eq!(term.field(), 5);
    assert_eq!(term.text(), "tokyo");
}

#[test]
fn test_empty_target() {
    // Defined edge case: an empty target matches the terms whose length is
    // at most the distance bound (their characters are that many insertions).
    let reader = segment(0, 3, vec![entry("", vec![0]), entry("a", vec![1]), entry("ab", vec![2])]);

    let zero = FuzzyTermQuery::new(Term::from_field_text(0, ""), 0, true);
    let mut scorer = zero.specialized_weight().scorer(&reader).unwrap();
    assert_eq!(collect_docs(&mut scorer), vec![0]);

    let one = FuzzyTermQuery::new(Term::from_field_text(0, ""), 1, true);
    let mut scorer = one.specialized_weight().scorer(&reader).unwrap();
    assert_eq!(collect_docs(&mut scorer), vec![0, 1]);
}
