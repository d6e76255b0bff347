use crate::docset::strictly_sorted;
use crate::schema::Field;
use vstd::prelude::*;

verus! {

/// Lexicographic (byte-order) comparison of term strings, the order the term
/// dictionary is sorted by.
pub open spec fn lex_lt(a: Seq<u8>, b: Seq<u8>) -> bool
    decreases a.len(),
{
    if b.len() == 0 {
        false
    } else if a.len() == 0 {
        true
    } else if a[0] < b[0] {
        true
    } else if a[0] > b[0] {
        false
    } else {
        lex_lt(a.drop_first(), b.drop_first())
    }
}

/// One entry of a term dictionary: a term's byte string and its decoded
/// posting list, the ascending ids of the documents whose field contains the
/// term.
pub struct TermEntry {
    pub term: Vec<u8>,
    pub docs: Vec<u32>,
}

impl TermEntry {
    /// The posting list ascends and stays below the segment's document bound.
    pub open spec fn wf(&self, max_doc: u32) -> bool {
        &&& strictly_sorted(self.docs@)
        &&& forall|k: int| 0 <= k < self.docs@.len() ==> self.docs@[k] < max_doc
    }
}

/// A field's term dictionary within one segment: entries sorted by term byte
/// string, read-only during a search.
pub struct InvertedIndex {
    pub field: Field,
    pub entries: Vec<TermEntry>,
}

impl InvertedIndex {
    /// Entries strictly ascend in byte order (so terms are unique), and every
    /// posting list is well formed.
    pub open spec fn wf(&self, max_doc: u32) -> bool {
        &&& forall|i: int, j: int|
            0 <= i < j < self.entries@.len() ==> lex_lt(
                (#[trigger] self.entries@[i]).term@,
                (#[trigger] self.entries@[j]).term@,
            )
        &&& forall|i: int| 0 <= i < self.entries@.len() ==> (#[trigger] self.entries@[i]).wf(max_doc)
    }

    /// Decode the posting list of the entry of ordinal `ord`.
    pub fn read_postings(&self, ord: usize) -> (r: &Vec<u32>)
        requires
            ord < self.entries@.len(),
        ensures
            r@ == self.entries@[ord as int].docs@,
    {
        &self.entries[ord].docs
    }
}

/// Read-only view of one immutable segment: its document-count bound and the
/// inverted index of each indexed field.
pub struct SegmentReader {
    pub max_doc: u32,
    pub indexes: Vec<InvertedIndex>,
}

impl SegmentReader {
    /// Every inverted index is well formed, and no field occurs twice.
    pub open spec fn wf(&self) -> bool {
        &&& forall|k: int|
            0 <= k < self.indexes@.len() ==> (#[trigger] self.indexes@[k]).wf(self.max_doc)
        &&& forall|k: int, l: int|
            0 <= k < l < self.indexes@.len() ==> (#[trigger] self.indexes@[k]).field != (
            #[trigger] self.indexes@[l]).field
    }

    /// The bound on document ids: every id in the segment is below it.
    pub fn max_doc(&self) -> (r: u32)
        ensures
            r == self.max_doc,
    {
        self.max_doc
    }

    /// The inverted index of `field`, if the segment holds one.
    pub fn inverted_index(&self, field: Field) -> (r: Option<&InvertedIndex>)
        ensures
            match r {
                Some(inv) => {
                    &&& exists|k: int|
                        0 <= k < self.indexes@.len() && #[trigger] self.indexes@[k] == *inv
                    &&& inv.field == field
                },
                None => forall|k: int|
                    0 <= k < self.indexes@.len() ==> (#[trigger] self.indexes@[k]).field != field,
            },
    {
        let mut k: usize = 0;
        while k < self.indexes.len()
            invariant
                k <= self.indexes@.len(),
                forall|l: int| 0 <= l < k ==> (#[trigger] self.indexes@[l]).field != field,
            decreases self.indexes@.len() - k,
        {
            if self.indexes[k].field == field {
                return Some(&self.indexes[k]);
            }
            k = k + 1;
        }
        None
    }
}

/// The caller-side handle over the segments of an index; this crate only
/// passes it through to keep the query interface uniform.
pub struct Searcher {
    pub segments: Vec<SegmentReader>,
}

} // verus!
