//! Sets of masks.

use vstd::prelude::*;
use vstd::seq_lib::seq_to_set_is_finite;

use crate::text::str_eq;

verus! {

/// The characters of each of the strings `items`.
pub open spec fn mask_views(items: Seq<String>) -> Seq<Seq<char>> {
    Seq::new(items.len(), |i: int| items[i]@)
}

/// A set of masks, which keeps them in the order in which they were added.
pub struct MaskSet {
    items: Vec<String>,
}

impl View for MaskSet {
    type V = Set<Seq<char>>;

    /// The masks of the set, each as the characters it holds.
    closed spec fn view(&self) -> Set<Seq<char>> {
        mask_views(self.items@).to_set()
    }
}

impl Default for MaskSet {
    fn default() -> (set: MaskSet)
        ensures
            set@ == Set::<Seq<char>>::empty(),
    {
        MaskSet::new()
    }
}

impl MaskSet {
    /// No mask occurs twice.
    #[verifier::type_invariant]
    spec fn distinct(self) -> bool {
        mask_views(self.items@).no_duplicates()
    }

    /// The empty set.
    pub fn new() -> (set: MaskSet)
        ensures
            set@ == Set::<Seq<char>>::empty(),
    {
        let set = MaskSet { items: Vec::new() };
        assert(set@ =~= Set::<Seq<char>>::empty());
        set
    }

    /// The place of `mask` among the items, if it is one of them.
    fn position(&self, mask: &str) -> (place: Option<usize>)
        ensures
            match place {
                Some(i) => i < self.items@.len() && self.items@[i as int]@ == mask@,
                None => !self@.contains(mask@),
            },
    {
        let mut i: usize = 0;
        while i < self.items.len()
            invariant
                i <= self.items@.len(),
                forall|j: int| 0 <= j < i ==> mask_views(self.items@)[j] != mask@,
            decreases self.items@.len() - i,
        {
            if str_eq(self.items[i].as_str(), mask) {
                return Some(i);
            }
            i += 1;
        }
        None
    }

    /// Whether `mask` is in the set.
    pub fn contains(&self, mask: &str) -> (found: bool)
        ensures
            found == self@.contains(mask@),
    {
        match self.position(mask) {
            Some(i) => {
                assert(mask_views(self.items@)[i as int] == mask@);
                true
            },
            None => false,
        }
    }

    /// The number of masks in the set.
    pub fn len(&self) -> (len: usize)
        ensures
            self@.finite(),
            len == self@.len(),
    {
        proof {
            use_type_invariant(self);
            mask_views(self.items@).unique_seq_to_set();
            seq_to_set_is_finite(mask_views(self.items@));
        }
        self.items.len()
    }

    /// Whether the set has no mask.
    pub fn is_empty(&self) -> (empty: bool)
        ensures
            empty == (self@ == Set::<Seq<char>>::empty()),
    {
        proof {
            if self.items@.len() > 0 {
                assert(mask_views(self.items@)[0] == self.items@[0]@);
                assert(self@.contains(self.items@[0]@));
            } else {
                assert(self@ =~= Set::<Seq<char>>::empty());
            }
        }
        self.items.len() == 0
    }

    /// The masks of the set, each once, in the order in which they were
    /// added.
    pub fn masks(&self) -> (items: &Vec<String>)
        ensures
            mask_views(items@).to_set() == self@,
            mask_views(items@).no_duplicates(),
    {
        proof {
            use_type_invariant(self);
        }
        &self.items
    }

    /// Adds `mask` to the set.  Returns whether it was not in the set
    /// before.
    pub fn insert(&mut self, mask: String) -> (added: bool)
        ensures
            final(self)@ == old(self)@.insert(mask@),
            added == !old(self)@.contains(mask@),
    {
        proof {
            use_type_invariant(&*self);
        }
        if self.contains(mask.as_str()) {
            assert(self@.insert(mask@) =~= self@);
            return false;
        }
        let mut items: Vec<String> = Vec::new();
        std::mem::swap(&mut items, &mut self.items);
        let ghost before = mask_views(items@);
        items.push(mask);
        proof {
            let after = mask_views(items@);
            assert(after =~= before.push(mask@));
            assert(!before.to_set().contains(mask@));
            assert forall|i: int, j: int| 0 <= i < after.len() && 0 <= j < after.len() && i
                != j implies after[i] != after[j] by {
                if i == before.len() {
                    assert(before.to_set().contains(before[j]));
                } else if j == before.len() {
                    assert(before.to_set().contains(before[i]));
                }
            }
            assert(after.to_set() =~= before.to_set().insert(mask@)) by {
                assert forall|m: Seq<char>| after.to_set().contains(m) == before.to_set().insert(
                    mask@,
                ).contains(m) by {
                    if after.to_set().contains(m) {
                        let i = choose|i: int| 0 <= i < after.len() && after[i] == m;
                        if i < before.len() {
                            assert(before[i] == m);
                        }
                    }
                    if before.to_set().contains(m) {
                        let i = choose|i: int| 0 <= i < before.len() && before[i] == m;
                        assert(after[i] == m);
                    }
                    if m == mask@ {
                        assert(after[before.len() as int] == m);
                    }
                }
            }
        }
        self.items = items;
        true
    }

    /// Takes `mask` out of the set.  Returns whether it was in the set.
    pub fn remove(&mut self, mask: &str) -> (removed: bool)
        ensures
            final(self)@ == old(self)@.remove(mask@),
            removed == old(self)@.contains(mask@),
    {
        proof {
            use_type_invariant(&*self);
        }
        let place = match self.position(mask) {
            Some(i) => i,
            None => {
                assert(self@.remove(mask@) =~= self@);
                return false;
            },
        };
        let mut items: Vec<String> = Vec::new();
        std::mem::swap(&mut items, &mut self.items);
        let ghost before = mask_views(items@);
        assert(before[place as int] == mask@);
        items.remove(place);
        proof {
            let after = mask_views(items@);
            assert(after =~= before.remove(place as int));
            assert forall|i: int, j: int| 0 <= i < after.len() && 0 <= j < after.len() && i
                != j implies after[i] != after[j] by {
                let a = if i < place { i } else { i + 1 };
                let b = if j < place { j } else { j + 1 };
                assert(after[i] == before[a] && after[j] == before[b]);
            }
            assert(after.to_set() =~= before.to_set().remove(mask@)) by {
                assert forall|m: Seq<char>| after.to_set().contains(m) == before.to_set().remove(
                    mask@,
                ).contains(m) by {
                    if after.to_set().contains(m) {
                        let i = choose|i: int| 0 <= i < after.len() && after[i] == m;
                        let a = if i < place { i } else { i + 1 };
                        assert(before[a] == m);
                        assert(a != place);
                    }
                    if before.to_set().contains(m) && m != mask@ {
                        let a = choose|a: int| 0 <= a < before.len() && before[a] == m;
                        let i = if a < place { a } else { a - 1 };
                        assert(after[i] == m);
                    }
                }
            }
        }
        self.items = items;
        true
    }
}

} // verus!
