use crate::automaton::Automaton;
use crate::segment::InvertedIndex;
use vstd::prelude::*;

verus! {

/// A lazy cursor over the entries of a term dictionary that an automaton
/// accepts: `advance` yields exactly the accepted entries, in dictionary
/// order, none skipped and none twice; `value` is the ordinal of the entry
/// the cursor stands on, meaningful only after an `advance` that returned
/// `true`.
pub struct TermStreamer<A: Automaton> {
    automaton: A,
    pos: usize,
    current: usize,
}

impl<A: Automaton> TermStreamer<A> {
    /// The automaton the stream is filtered by.
    pub closed spec fn spec_automaton(&self) -> A {
        self.automaton
    }

    /// The ordinal the next `advance` resumes the scan from.
    pub closed spec fn spec_pos(&self) -> int {
        self.pos as int
    }

    /// The ordinal of the entry the cursor stands on.
    pub closed spec fn spec_current(&self) -> int {
        self.current as int
    }

    /// A cursor standing before the first dictionary entry.
    pub fn new(automaton: A) -> (r: TermStreamer<A>)
        ensures
            r.spec_pos() == 0,
            r.spec_automaton() == automaton,
    {
        TermStreamer { automaton, pos: 0, current: 0 }
    }

    /// Move to the next entry of `dict` the automaton accepts; `false` once
    /// no accepted entry is left.
    pub fn advance(&mut self, dict: &InvertedIndex) -> (r: bool)
        requires
            old(self).spec_pos() <= dict.entries@.len(),
        ensures
            final(self).spec_automaton() == old(self).spec_automaton(),
            r ==> {
                &&& old(self).spec_pos() <= final(self).spec_current() < dict.entries@.len()
                &&& old(self).spec_automaton().accepts(
                    dict.entries@[final(self).spec_current()].term@,
                )
                &&& final(self).spec_pos() == final(self).spec_current() + 1
                &&& forall|j: int|
                    old(self).spec_pos() <= j < final(self).spec_current()
                        ==> !old(self).spec_automaton().accepts((#[trigger] dict.entries@[j]).term@)
            },
            !r ==> {
                &&& final(self).spec_pos() == dict.entries@.len()
                &&& final(self).spec_current() == old(self).spec_current()
                &&& forall|j: int|
                    old(self).spec_pos() <= j < dict.entries@.len() ==> !old(
                        self,
                    ).spec_automaton().accepts((#[trigger] dict.entries@[j]).term@)
            },
    {
        let mut i: usize = self.pos;
        while i < dict.entries.len()
            invariant
                old(self).spec_pos() <= i <= dict.entries@.len(),
                self.spec_automaton() == old(self).spec_automaton(),
                self.spec_current() == old(self).spec_current(),
                forall|j: int|
                    old(self).spec_pos() <= j < i ==> !old(self).spec_automaton().accepts(
                        (#[trigger] dict.entries@[j]).term@,
                    ),
            decreases dict.entries@.len() - i,
        {
            if self.automaton.matches(&dict.entries[i].term) {
                self.current = i;
                self.pos = i + 1;
                return true;
            }
            i = i + 1;
        }
        self.pos = dict.entries.len();
        false
    }

    /// The ordinal of the entry the cursor stands on: the term metadata a
    /// posting list is read from.
    pub fn value(&self) -> (r: usize)
        ensures
            r == self.spec_current(),
    {
        self.current
    }
}

} // verus!
