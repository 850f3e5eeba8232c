//! Word sets and their overlap: the lexical measure behind conflict
//! detection, consistency scoring and the diversity penalty.

use vstd::prelude::*;
use vstd::seq_lib::seq_to_set_is_finite;
use vstd::set_lib::{lemma_len_intersect, lemma_set_intersect_union_lens};
use crate::text::{same_chars, slice_of, views_of};

verus! {

/// How two word sets overlap: the size of their intersection and the size
/// of their union.
#[derive(Clone, Copy, Debug, PartialEq, Eq)]
pub struct Overlap {
    /// The number of words that both sets hold.
    pub shared: u128,
    /// The number of words that either set holds.
    pub total: u128,
}

impl Overlap {
    /// The Jaccard similarity in millionths, rounded down: `shared / total`,
    /// and zero when both sets are empty.
    pub open spec fn similarity(self) -> int {
        if self.total == 0 {
            0
        } else {
            (self.shared * 1_000_000) / (self.total as int)
        }
    }

    /// Whether the similarity is below a quarter.
    pub open spec fn below_quarter(self) -> bool {
        self.total == 0 || 4 * self.shared < self.total
    }

    /// Whether the similarity is above three fifths.
    pub open spec fn above_three_fifths(self) -> bool {
        self.total > 0 && 5 * self.shared > 3 * self.total
    }

    /// Whether the counts can be those of two sets: the intersection is no
    /// larger than the union.
    pub open spec fn plausible(self) -> bool {
        self.shared <= self.total <= 2 * usize::MAX
    }
}

/// How two sets of words overlap.
pub open spec fn overlap_of(a: Set<Seq<char>>, b: Set<Seq<char>>) -> Overlap {
    Overlap { shared: a.intersect(b).len() as u128, total: a.union(b).len() as u128 }
}

/// A set of words, held without repetition.
#[derive(Debug)]
pub struct WordSet {
    words: Vec<Vec<char>>,
}

impl View for WordSet {
    type V = Set<Seq<char>>;

    closed spec fn view(&self) -> Set<Seq<char>> {
        views_of(self.words@).to_set()
    }
}

impl WordSet {
    /// The representation invariant: no word is held twice.
    pub closed spec fn wf(&self) -> bool {
        views_of(self.words@).no_duplicates()
    }

    /// The empty set.
    pub fn new() -> (s: Self)
        ensures
            s.wf(),
            s@ == Set::<Seq<char>>::empty(),
    {
        let s = WordSet { words: Vec::new() };
        proof {
            assert(views_of(s.words@) =~= Seq::<Seq<char>>::empty());
            assert(s@ =~= Set::<Seq<char>>::empty());
        }
        s
    }

    /// Whether `word` is in the set.
    pub fn contains(&self, word: &Vec<char>) -> (r: bool)
        ensures
            r == self@.contains(word@),
    {
        let ghost all = views_of(self.words@);
        let mut i: usize = 0;
        while i < self.words.len()
            invariant
                i <= self.words.len(),
                all == views_of(self.words@),
                forall|k: int| 0 <= k < i ==> all[k] != word@,
            decreases self.words.len() - i,
        {
            if same_chars(&self.words[i], word) {
                proof {
                    assert(all[i as int] == word@);
                }
                return true;
            }
            i += 1;
        }
        false
    }

    /// Puts `word` into the set.
    pub fn insert(&mut self, word: Vec<char>)
        requires
            old(self).wf(),
        ensures
            final(self).wf(),
            final(self)@ == old(self)@.insert(word@),
    {
        if !self.contains(&word) {
            let ghost before = views_of(self.words@);
            self.words.push(word);
            proof {
                let after = views_of(self.words@);
                assert(after =~= before.push(word@));
                assert(after.to_set() =~= before.to_set().insert(word@)) by {
                    assert forall|w: Seq<char>| after.contains(w) implies before.contains(w) || w
                        == word@ by {
                        let k = choose|k: int| 0 <= k < after.len() && after[k] == w;
                        if k < before.len() {
                            assert(before[k] == w);
                        }
                    }
                    assert forall|w: Seq<char>| before.contains(w) || w
                        == word@ implies after.contains(w) by {
                        if before.contains(w) {
                            let k = choose|k: int| 0 <= k < before.len() && before[k] == w;
                            assert(after[k] == w);
                        } else {
                            assert(after[before.len() as int] == w);
                        }
                    }
                }
                assert(after.no_duplicates()) by {
                    assert forall|i: int, j: int|
                        0 <= i < after.len() && 0 <= j < after.len() && i != j implies after[i]
                        != after[j] by {
                        if i < before.len() {
                            assert(before.contains(after[i]));
                        }
                        if j < before.len() {
                            assert(before.contains(after[j]));
                        }
                    }
                }
            }
        } else {
            proof {
                assert(self@.insert(word@) =~= self@);
            }
        }
    }

    /// The number of words in the set.
    pub fn len(&self) -> (r: usize)
        requires
            self.wf(),
        ensures
            r == self@.len(),
            self@.finite(),
    {
        proof {
            views_of(self.words@).unique_seq_to_set();
            seq_to_set_is_finite(views_of(self.words@));
        }
        self.words.len()
    }

    /// Whether the set holds no word.
    pub fn is_empty(&self) -> (r: bool)
        requires
            self.wf(),
        ensures
            r == (self@.len() == 0),
            self@.finite(),
    {
        self.len() == 0
    }

    /// The set of the words of a list.
    pub fn of_words(words: &Vec<Vec<char>>) -> (s: Self)
        ensures
            s.wf(),
            s@ == views_of(words@).to_set(),
    {
        let mut s = WordSet::new();
        let ghost all = views_of(words@);
        let mut i: usize = 0;
        while i < words.len()
            invariant
                i <= words.len(),
                all == views_of(words@),
                s.wf(),
                s@ == all.take(i as int).to_set(),
            decreases words.len() - i,
        {
            let word = slice_of(&words[i], 0, words[i].len());
            proof {
                assert(word@ == words[i as int]@);
                let before = all.take(i as int);
                let after = all.take(i + 1);
                assert(after =~= before.push(all[i as int]));
                assert(after.to_set() =~= before.to_set().insert(all[i as int])) by {
                    assert forall|w: Seq<char>| after.contains(w) implies before.contains(w) || w
                        == all[i as int] by {
                        let k = choose|k: int| 0 <= k < after.len() && after[k] == w;
                        if k < before.len() {
                            assert(before[k] == w);
                        }
                    }
                    assert forall|w: Seq<char>| before.contains(w) || w
                        == all[i as int] implies after.contains(w) by {
                        if before.contains(w) {
                            let k = choose|k: int| 0 <= k < before.len() && before[k] == w;
                            assert(after[k] == w);
                        } else {
                            assert(after[i as int] == w);
                        }
                    }
                }
            }
            s.insert(word);
            i += 1;
        }
        proof {
            assert(all.take(words.len() as int) == all);
        }
        s
    }

    /// A copy of the set.
    pub fn duplicate(&self) -> (s: Self)
        ensures
            s.wf(),
            s@ == self@,
    {
        WordSet::of_words(&self.words)
    }

    /// Puts every word of `other` into the set.
    pub fn absorb(&mut self, other: &WordSet)
        requires
            old(self).wf(),
        ensures
            final(self).wf(),
            final(self)@ == old(self)@.union(other@),
    {
        let ghost all = views_of(other.words@);
        let ghost start = self@;
        let mut i: usize = 0;
        proof {
            assert(start.union(all.take(0).to_set()) =~= start);
        }
        while i < other.words.len()
            invariant
                i <= other.words.len(),
                all == views_of(other.words@),
                self.wf(),
                self@ == start.union(all.take(i as int).to_set()),
            decreases other.words.len() - i,
        {
            let word = slice_of(&other.words[i], 0, other.words[i].len());
            proof {
                assert(word@ == all[i as int]);
                let before = all.take(i as int);
                let after = all.take(i + 1);
                assert(start.union(after.to_set()) =~= start.union(before.to_set()).insert(
                    word@,
                )) by {
                    assert forall|w: Seq<char>| after.contains(w) implies before.contains(w) || w
                        == word@ by {
                        let k = choose|k: int| 0 <= k < after.len() && after[k] == w;
                        if k < before.len() {
                            assert(before[k] == w);
                        }
                    }
                    assert forall|w: Seq<char>| before.contains(w) || w
                        == word@ implies after.contains(w) by {
                        if before.contains(w) {
                            let k = choose|k: int| 0 <= k < before.len() && before[k] == w;
                            assert(after[k] == w);
                        } else {
                            assert(after[i as int] == w);
                        }
                    }
                }
            }
            self.insert(word);
            i += 1;
        }
        proof {
            assert(all.take(other.words.len() as int) == all);
        }
    }

    /// How the set overlaps with `other`.
    pub fn overlap(&self, other: &WordSet) -> (r: Overlap)
        requires
            self.wf(),
            other.wf(),
        ensures
            r == overlap_of(self@, other@),
            r.shared == self@.intersect(other@).len(),
            r.total == self@.union(other@).len(),
            r.plausible(),
    {
        let ghost all = views_of(self.words@);
        let mut shared: usize = 0;
        let mut i: usize = 0;
        proof {
            seq_to_set_is_finite(all);
            assert(all.take(0).to_set().intersect(other@) =~= Set::<Seq<char>>::empty());
        }
        while i < self.words.len()
            invariant
                i <= self.words.len(),
                shared <= i,
                all == views_of(self.words@),
                all.no_duplicates(),
                other.wf(),
                all.take(i as int).to_set().intersect(other@).finite(),
                shared == all.take(i as int).to_set().intersect(other@).len(),
            decreases self.words.len() - i,
        {
            let found = other.contains(&self.words[i]);
            proof {
                let before = all.take(i as int);
                let after = all.take(i + 1);
                let word = all[i as int];
                assert(!before.contains(word)) by {
                    if before.contains(word) {
                        let k = choose|k: int| 0 <= k < before.len() && before[k] == word;
                        assert(all[k] == all[i as int]);
                    }
                }
                assert forall|w: Seq<char>| after.contains(w) implies before.contains(w) || w
                    == word by {
                    let k = choose|k: int| 0 <= k < after.len() && after[k] == w;
                    if k < before.len() {
                        assert(before[k] == w);
                    }
                }
                assert forall|w: Seq<char>| before.contains(w) || w == word implies after.contains(
                    w,
                ) by {
                    if before.contains(w) {
                        let k = choose|k: int| 0 <= k < before.len() && before[k] == w;
                        assert(after[k] == w);
                    } else {
                        assert(after[i as int] == w);
                    }
                }
                if found {
                    assert(after.to_set().intersect(other@) =~= before.to_set().intersect(
                        other@,
                    ).insert(word));
                } else {
                    assert(after.to_set().intersect(other@) =~= before.to_set().intersect(other@));
                }
            }
            if found {
                shared += 1;
            }
            i += 1;
        }
        let mine = self.len();
        let theirs = other.len();
        proof {
            assert(all.take(self.words.len() as int) == all);
            lemma_set_intersect_union_lens(self@, other@);
            lemma_len_intersect(other@, self@);
            assert(other@.intersect(self@) =~= self@.intersect(other@));
            lemma_len_intersect(self@, other@);
        }
        Overlap { shared: shared as u128, total: mine as u128 + theirs as u128 - shared as u128 }
    }
}

/// The similarity of an overlap in millionths.
pub fn similarity_of(overlap: Overlap) -> (r: u32)
    requires
        overlap.plausible(),
    ensures
        r == overlap.similarity(),
        r <= 1_000_000,
{
    if overlap.total == 0 {
        0
    } else {
        let q = overlap.shared * 1_000_000 / overlap.total;
        proof {
            assert(overlap.shared * 1_000_000 / (overlap.total as int) <= 1_000_000) by (nonlinear_arith)
                requires
                    0 <= overlap.shared <= overlap.total,
                    overlap.total > 0,
            ;
        }
        q as u32
    }
}

/// Whether the similarity of an overlap is below a quarter.
pub fn is_below_quarter(overlap: Overlap) -> (r: bool)
    requires
        overlap.plausible(),
    ensures
        r == overlap.below_quarter(),
{
    overlap.total == 0 || 4 * overlap.shared < overlap.total
}

/// Whether the similarity of an overlap is above three fifths.
pub fn is_above_three_fifths(overlap: Overlap) -> (r: bool)
    requires
        overlap.plausible(),
    ensures
        r == overlap.above_three_fifths(),
{
    overlap.total > 0 && 5 * overlap.shared > 3 * overlap.total
}

} // verus!
