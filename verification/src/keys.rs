//! Sets of keys.

use vstd::prelude::*;

use crate::text;

verus! {

/// A set of texts, each held once.
#[derive(Debug)]
pub struct KeySet {
    keys: Vec<String>,
}

impl View for KeySet {
    type V = Set<Seq<char>>;

    closed spec fn view(&self) -> Set<Seq<char>> {
        Set::new(|k: Seq<char>| exists|i: int| 0 <= i < self.keys@.len() && (#[trigger] self.keys@[i])@ == k)
    }
}

impl KeySet {
    /// No key is held twice.
    #[verifier::type_invariant]
    spec fn each_once(self) -> bool {
        forall|i: int, j: int|
            0 <= i < j < self.keys@.len() ==> (#[trigger] self.keys@[i])@ != (#[trigger] self.keys@[j])@
    }

    /// The empty set.
    pub fn new() -> (r: Self)
        ensures
            r@ == Set::<Seq<char>>::empty(),
    {
        let r = KeySet { keys: Vec::new() };
        assert(r@ =~= Set::<Seq<char>>::empty());
        r
    }

    /// Whether the key is in the set.
    pub fn contains(&self, key: &str) -> (r: bool)
        ensures
            r == self@.contains(key@),
    {
        let mut i: usize = 0;
        while i < self.keys.len()
            invariant
                i <= self.keys@.len(),
                forall|j: int| 0 <= j < i ==> (#[trigger] self.keys@[j])@ != key@,
            decreases self.keys@.len() - i,
        {
            if text::same_text(self.keys[i].as_str(), key) {
                assert(self.keys@[i as int]@ == key@);
                return true;
            }
            i += 1;
        }
        false
    }

    /// Puts a key in; says whether it is new.
    pub fn insert(&mut self, key: String) -> (r: bool)
        ensures
            final(self)@ == old(self)@.insert(key@),
            r == !old(self)@.contains(key@),
    {
        proof {
            use_type_invariant(&*self);
        }
        if self.contains(key.as_str()) {
            assert(self@ =~= self@.insert(key@));
            return false;
        }
        let ghost before = *self;
        let mut keys: Vec<String> = Vec::new();
        std::mem::swap(&mut keys, &mut self.keys);
        keys.push(key);
        let ghost held = keys@;
        proof {
            assert forall|i: int, j: int| 0 <= i < j < held.len() implies (#[trigger] held[i])@ != (
            #[trigger] held[j])@ by {
                if j < before.keys@.len() {
                    assert(before.keys@[i]@ != before.keys@[j]@);
                } else {
                    assert(before.keys@[i]@ != key@);
                }
            }
        }
        self.keys = keys;
        proof {
            assert forall|k: Seq<char>| self@.contains(k) == before@.insert(key@).contains(k) by {
                if before@.contains(k) {
                    let i = choose|i: int|
                        0 <= i < before.keys@.len() && (#[trigger] before.keys@[i])@ == k;
                    assert(held[i]@ == k);
                }
                assert(held[held.len() - 1]@ == key@);
                if self@.contains(k) && k != key@ {
                    let i = choose|i: int| 0 <= i < held.len() && (#[trigger] held[i])@ == k;
                    assert(before.keys@[i]@ == k);
                }
            }
            assert(self@ =~= before@.insert(key@));
        }
        true
    }

    /// How many keys the set holds.
    pub fn len(&self) -> (r: usize)
        ensures
            self@.finite(),
            r == self@.len(),
    {
        proof {
            use_type_invariant(self);
            let all = self.keys@.map_values(|s: String| s@);
            assert(all.no_duplicates()) by {
                assert forall|i: int, j: int| 0 <= i < j < all.len() implies all[i] != all[j] by {
                    assert(self.keys@[i]@ != self.keys@[j]@);
                }
            }
            all.unique_seq_to_set();
            assert(self@ =~= all.to_set()) by {
                assert forall|k: Seq<char>| self@.contains(k) == all.to_set().contains(k) by {
                    if self@.contains(k) {
                        let i = choose|i: int| 0 <= i < self.keys@.len() && (#[trigger] self.keys@[i])@ == k;
                        assert(all[i] == k);
                    }
                    if all.contains(k) {
                        let i = choose|i: int| 0 <= i < all.len() && all[i] == k;
                        assert(self.keys@[i]@ == k);
                    }
                }
            }
        }
        self.keys.len()
    }

    /// Whether the set holds nothing.
    pub fn is_empty(&self) -> (r: bool)
        ensures
            r == (self@ == Set::<Seq<char>>::empty()),
    {
        proof {
            if self.keys@.len() > 0 {
                assert(self@.contains(self.keys@[0]@));
            } else {
                assert(self@ =~= Set::<Seq<char>>::empty());
            }
        }
        self.keys.len() == 0
    }
}

impl Clone for KeySet {
    fn clone(&self) -> (r: Self)
        ensures
            r@ == self@,
    {
        let mut r = KeySet::new();
        let mut i: usize = 0;
        while i < self.keys.len()
            invariant
                i <= self.keys@.len(),
                forall|k: Seq<char>| #[trigger]
                    r@.contains(k) == exists|j: int| 0 <= j < i && (#[trigger] self.keys@[j])@ == k,
            decreases self.keys@.len() - i,
        {
            r.insert(self.keys[i].clone());
            i += 1;
        }
        assert(r@ =~= self@);
        r
    }
}

} // verus!
