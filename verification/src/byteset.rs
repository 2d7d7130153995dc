//! A set of byte strings that is searched in constant time.

use std::collections::HashMap;

use vstd::prelude::*;

use crate::text::same_bytes;

verus! {

broadcast use vstd::std_specs::hash::group_hash_axioms;

/// A digest of a byte string, by which byte strings are told apart at first.
pub open spec fn digest(bytes: Seq<u8>) -> u64
    decreases bytes.len(),
{
    if bytes.len() == 0 {
        0
    } else {
        ((digest(bytes.drop_last()) * 257 + bytes.last() as int) % 0x1_0000_0000_0000_0000) as u64
    }
}

/// The digest of a byte string.
pub fn digest_of(bytes: &Vec<u8>) -> (r: u64)
    ensures
        r == digest(bytes@),
{
    let mut h: u64 = 0;
    let mut i: usize = 0;
    while i < bytes.len()
        invariant
            i <= bytes.len(),
            h == digest(bytes@.take(i as int)),
        decreases bytes.len() - i,
    {
        assert(bytes@.take(i + 1).drop_last() =~= bytes@.take(i as int));
        h = ((h as u128 * 257 + bytes[i] as u128) % 0x1_0000_0000_0000_0000) as u64;
        i = i + 1;
    }
    assert(bytes@.take(i as int) =~= bytes@);
    h
}

/// The byte strings of a list.
spec fn contents(items: Seq<Vec<u8>>) -> Seq<Seq<u8>> {
    items.map_values(|v: Vec<u8>| v@)
}

/// A set of byte strings.
#[derive(Debug)]
pub struct ByteSet {
    items: Vec<Vec<u8>>,
    places: HashMap<u64, Vec<usize>>,
}

impl View for ByteSet {
    type V = Set<Seq<u8>>;

    closed spec fn view(&self) -> Set<Seq<u8>> {
        contents(self.items@).to_set()
    }
}

/// Whether `places` leads from the digest of each item to its place.
spec fn leads(items: Seq<Seq<u8>>, places: Map<u64, Vec<usize>>) -> bool {
    &&& items.no_duplicates()
    &&& forall|i: int|
        0 <= i < items.len() ==> places.contains_key(digest(#[trigger] items[i]))
            && places[digest(items[i])]@.contains(i as usize)
    &&& forall|d: u64, k: int|
        #![trigger places[d]@[k]]
        places.contains_key(d) && 0 <= k < places[d]@.len() ==> places[d]@[k] < items.len()
}

impl ByteSet {
    #[verifier::type_invariant]
    spec fn inv(self) -> bool {
        leads(contents(self.items@), self.places@)
    }

    /// The empty set.
    pub fn new() -> (r: ByteSet)
        ensures
            r@ == Set::<Seq<u8>>::empty(),
    {
        let items: Vec<Vec<u8>> = Vec::new();
        let places: HashMap<u64, Vec<usize>> = HashMap::new();
        assert(contents(items@) =~= Seq::<Seq<u8>>::empty());
        let r = ByteSet { items, places };
        assert(r@ =~= Set::<Seq<u8>>::empty());
        r
    }

    /// How many byte strings the set has.
    pub fn len(&self) -> (r: usize)
        ensures
            r == self@.len(),
    {
        proof {
            use_type_invariant(self);
            contents(self.items@).unique_seq_to_set();
        }
        self.items.len()
    }

    /// Whether the set has the byte string.
    pub fn contains(&self, bytes: &Vec<u8>) -> (r: bool)
        ensures
            r == self@.contains(bytes@),
    {
        proof {
            use_type_invariant(self);
        }
        let ghost items = contents(self.items@);
        match self.places.get(&digest_of(bytes)) {
            None => {
                assert(!self@.contains(bytes@)) by {
                    if items.contains(bytes@) {
                        let i = choose|i: int| 0 <= i < items.len() && items[i] == bytes@;
                        assert(self.places@.contains_key(digest(items[i])));
                    }
                }
                false
            },
            Some(list) => {
                let mut k: usize = 0;
                while k < list.len()
                    invariant
                        k <= list.len(),
                        items == contents(self.items@),
                        self.places@.contains_key(digest(bytes@)),
                        *list == self.places@[digest(bytes@)],
                        leads(items, self.places@),
                        forall|j: int| 0 <= j < k ==> items[#[trigger] list@[j] as int] != bytes@,
                    decreases list.len() - k,
                {
                    assert(self.places@[digest(bytes@)]@[k as int] < items.len());
                    let at: usize = list[k];
                    if same_bytes(self.items[at].as_slice(), bytes.as_slice()) {
                        assert(items[at as int] == bytes@);
                        return true;
                    }
                    k = k + 1;
                }
                assert(!self@.contains(bytes@)) by {
                    if items.contains(bytes@) {
                        let i = choose|i: int| 0 <= i < items.len() && items[i] == bytes@;
                        assert(self.places@[digest(items[i])]@.contains(i as usize));
                        let j = choose|j: int| 0 <= j < list@.len() && list@[j] == i as usize;
                        assert(self.items.len() == items.len());
                        assert(items[list@[j] as int] != bytes@);
                    }
                }
                false
            },
        }
    }

    /// Adds a byte string.
    pub fn insert(&mut self, bytes: Vec<u8>)
        ensures
            final(self)@ == old(self)@.insert(bytes@),
    {
        if self.contains(&bytes) {
            assert(self@ =~= old(self)@.insert(bytes@));
            return;
        }
        let mut taken = ByteSet::new();
        core::mem::swap(&mut taken, self);
        proof {
            use_type_invariant(&taken);
        }
        let ghost before = taken;
        let ByteSet { mut items, mut places } = taken;
        let ghost added = bytes@;
        let ghost items0 = contents(items@);
        let ghost places0 = places@;
        let at: usize = items.len();
        let key: u64 = digest_of(&bytes);
        let mut list: Vec<usize> = match places.remove(&key) {
            Some(l) => l,
            None => Vec::new(),
        };
        let ghost list0 = list@;
        list.push(at);
        let ghost list1 = list@;
        places.insert(key, list);
        items.push(bytes);
        proof {
            let items1 = contents(items@);
            assert(items1 =~= items0.push(added));
            assert(!items0.contains(added));
            assert forall|i: int, j: int|
                0 <= i < items1.len() && 0 <= j < items1.len() && i != j implies items1[i]
                != items1[j] by {
                if i < items0.len() && j < items0.len() {
                    assert(items0[i] != items0[j]);
                } else if i < items0.len() {
                    assert(items0.contains(items0[i]));
                } else {
                    assert(items0.contains(items0[j]));
                }
            }
            assert forall|i: int| 0 <= i < items1.len() implies places@.contains_key(
                digest(#[trigger] items1[i]),
            ) && places@[digest(items1[i])]@.contains(i as usize) by {
                if i < items0.len() {
                    assert(items1[i] == items0[i]);
                    assert(places0[digest(items0[i])]@.contains(i as usize));
                    if digest(items0[i]) == key {
                        let k = choose|k: int| 0 <= k < list0.len() && list0[k] == i as usize;
                        assert(list1[k] == i as usize);
                    }
                } else {
                    assert(list1[list0.len() as int] == at);
                }
            }
            assert forall|d: u64, k: int|
                #![trigger places@[d]@[k]]
                places@.contains_key(d) && 0 <= k < places@[d]@.len() implies places@[d]@[k]
                < items1.len() by {
                if d == key {
                    assert(places@[d]@ == list1);
                    if k < list0.len() {
                        assert(list1[k] == list0[k]);
                        assert(places0[d]@[k] < items0.len());
                    }
                } else {
                    assert(places0[d]@[k] < items0.len());
                }
            }
        }
        *self = ByteSet { items, places };
        assert(self@ =~= old(self)@.insert(added)) by {
            assert forall|x: Seq<u8>| items0.push(added).contains(x) <==> items0.contains(x) || x
                == added by {
                if items0.contains(x) {
                    let i = choose|i: int| 0 <= i < items0.len() && items0[i] == x;
                    assert(items0.push(added)[i] == x);
                }
                if x == added {
                    assert(items0.push(added)[items0.len() as int] == x);
                }
            }
        }
    }
}

}
