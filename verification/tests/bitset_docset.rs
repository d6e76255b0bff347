use fuzzy_query::bitset::BitSet;
use fuzzy_query::docset::BitSetDocSet;
use fuzzy_query::levenshtein::LevenshteinDfa;
use fuzzy_query::segment::{InvertedIndex, TermEntry};
use fuzzy_query::termdict::TermStreamer;

#[test]
fn test_bitset_insert_is_idempotent() {
    let mut bits = BitSet::with_max_value(10);
    assert!(!bits.contains(3));
    bits.insert(3);
    bits.insert(3);
    bits.insert(7);
    assert!(bits.contains(3));
    assert!(bits.contains(7));
    assert!(!bits.contains(4));
    assert!(!bits.contains(10));

    let mut docs = BitSetDocSet::from_bitset(&bits);
    let mut seen: Vec<u32> = Vec::new();
    while docs.advance() {
        seen.push(docs.doc());
    }
    assert_eq!(seen, vec![3, 7]);
}

#[test]
fn test_doc_set_of_empty_bitset() {
    let bits = BitSet::with_max_value(4);
    let mut docs = BitSetDocSet::from_bitset(&bits);
    assert!(!docs.advance());
}

#[test]
fn test_streamer_yields_accepted_entries_in_order() {
    let dict = InvertedIndex {
        field: 0,
        entries: vec![
            TermEntry { term: b"aapan".to_vec(), docs: vec![0] },
            TermEntry { term: b"japan".to_vec(), docs: vec![1] },
            TermEntry { term: b"korea".to_vec(), docs: vec![2] },
        ],
    };
    let automaton = LevenshteinDfa::build_exact("japan", 1, true);
    let mut stream = TermStreamer::new(automaton);
    let mut ords: Vec<usize> = Vec::new();
    while stream.advance(&dict) {
        ords.push(stream.value());
    }
    assert_eq!(ords, vec![0, 1]);
}

#[test]
fn test_prefix_automaton_accepts_extensions_only() {
    let dict = InvertedIndex {
        field: 0,
        entries: vec![
            TermEntry { term: b"jap".to_vec(), docs: vec![0] },
            TermEntry { term: b"japan".to_vec(), docs: vec![1] },
            TermEntry { term: b"jopan".to_vec(), docs: vec![2] },
            TermEntry { term: b"korea".to_vec(), docs: vec![3] },
        ],
    };
    let automaton = LevenshteinDfa::build_prefix("jap", 0, true);
    let mut stream = TermStreamer::new(automaton);
    let mut ords: Vec<usize> = Vec::new();
    while stream.advance(&dict) {
        ords.push(stream.value());
    }
    assert_eq!(ords, vec![0, 1]);
}
