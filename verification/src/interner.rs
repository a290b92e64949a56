//! A two-way cache between byte strings and the dense ids that stand for them.

use bimap::BiHashMap;
use std::collections::hash_map::RandomState;
use vstd::prelude::*;

verus! {

// `bimap::BiHashMap`, the two-way map that holds the interned values.
#[verifier::external_type_specification]
#[verifier::external_body]
#[verifier::reject_recursive_types(L)]
#[verifier::reject_recursive_types(R)]
#[verifier::reject_recursive_types(LS)]
#[verifier::reject_recursive_types(RS)]
pub struct ExBiHashMap<L, R, LS, RS>(BiHashMap<L, R, LS, RS>);

/// The left-to-right pairs that a bimap from ids to byte strings holds.
pub uninterp spec fn bimap_pairs(map: BiHashMap<usize, Vec<u8>, RandomState, RandomState>) -> Map<
    usize,
    Seq<u8>,
>;

/// What a bimap holds after the pair `(left, right)` is inserted: every pair
/// that shared its left or its right value is gone, and the new pair is there.
pub open spec fn pairs_after_insert(pairs: Map<usize, Seq<u8>>, left: usize, right: Seq<u8>) -> Map<
    usize,
    Seq<u8>,
> {
    Map::new(
        |l: usize| l == left || (pairs.contains_key(l) && pairs[l] != right),
        |l: usize|
            if l == left {
                right
            } else {
                pairs[l]
            },
    )
}

/// `BiHashMap::new`: the map it returns holds no pair.
#[verifier::external_body]
fn bimap_new() -> (fresh: BiHashMap<usize, Vec<u8>, RandomState, RandomState>)
    ensures
        forall|l: usize| !bimap_pairs(fresh).contains_key(l),
{
    BiHashMap::new()
}

/// `BiHashMap::get_by_left`: the right value paired with `left`, or `None`
/// where no pair has that left value.
#[verifier::external_body]
fn bimap_get_by_left(map: &BiHashMap<usize, Vec<u8>, RandomState, RandomState>, left: usize) -> (right:
    Option<&Vec<u8>>)
    ensures
        match right {
            Some(r) => bimap_pairs(*map).contains_key(left) && bimap_pairs(*map)[left] == r@,
            None => !bimap_pairs(*map).contains_key(left),
        },
{
    map.get_by_left(&left)
}

/// `BiHashMap::get_by_right`: a left value paired with `right`, or `None`
/// where no pair has that right value.
#[verifier::external_body]
fn bimap_get_by_right(map: &BiHashMap<usize, Vec<u8>, RandomState, RandomState>, right: &Vec<u8>) -> (left:
    Option<usize>)
    ensures
        match left {
            Some(l) => bimap_pairs(*map).contains_key(l) && bimap_pairs(*map)[l] == right@,
            None => forall|l: usize|
                bimap_pairs(*map).contains_key(l) ==> bimap_pairs(*map)[l] != right@,
        },
{
    map.get_by_right(right).copied()
}

/// `BiHashMap::insert`: pairs that share a side with the new pair are
/// overwritten, and the new pair is stored.
#[verifier::external_body]
fn bimap_insert(map: &mut BiHashMap<usize, Vec<u8>, RandomState, RandomState>, left: usize, right: Vec<u8>)
    ensures
        bimap_pairs(*final(map)) == pairs_after_insert(bimap_pairs(*old(map)), left, right@),
{
    map.insert(left, right);
}

/// The id under which `value` is found once it is interned among `values`:
/// the one it has, or else the next free one.
pub open spec fn intern_id(values: Seq<Seq<u8>>, value: Seq<u8>) -> int {
    if values.contains(value) {
        values.index_of(value)
    } else {
        values.len() as int
    }
}

/// The interned values once `value` is interned among them: a value that is
/// already there adds nothing.
pub open spec fn intern_values(values: Seq<Seq<u8>>, value: Seq<u8>) -> Seq<Seq<u8>> {
    if values.contains(value) {
        values
    } else {
        values.push(value)
    }
}

/// Caches byte strings and hands out an id for each, by which the value can
/// be found again. Equal values share one id.
pub struct Interner {
    next_id: usize,
    intern_map: BiHashMap<usize, Vec<u8>, RandomState, RandomState>,
}

impl Interner {
    /// The ids in use are exactly those below `next_id`, and no value has two ids.
    pub closed spec fn well_formed(&self) -> bool {
        let pairs = bimap_pairs(self.intern_map);
        &&& forall|id: usize| pairs.contains_key(id) <==> id < self.next_id
        &&& forall|a: usize, b: usize|
            pairs.contains_key(a) && pairs.contains_key(b) && pairs[a] == pairs[b] ==> a == b
    }

    /// The interned values in the order in which they were first seen: the
    /// value at index `id` is the one that `id` stands for.
    pub closed spec fn view(&self) -> Seq<Seq<u8>> {
        Seq::new(self.next_id as nat, |id: int| bimap_pairs(self.intern_map)[id as usize])
    }

    /// No interned value occurs under two ids.
    pub proof fn lemma_distinct(&self)
        requires
            self.well_formed(),
        ensures
            self@.no_duplicates(),
    {
    }

    /// Inserts `value` and returns its id. A value that is already there keeps
    /// the id it got when it was first inserted; a new one gets the next id.
    pub fn insert(&mut self, value: Vec<u8>) -> (id: usize)
        requires
            old(self).well_formed(),
            old(self)@.len() < usize::MAX,
        ensures
            final(self).well_formed(),
            final(self)@ == intern_values(old(self)@, value@),
            id == intern_id(old(self)@, value@),
            id < final(self)@.len(),
            final(self)@[id as int] == value@,
    {
        let ghost before = self@;
        match bimap_get_by_right(&self.intern_map, &value) {
            Some(id) => {
                assert(before[id as int] == value@);
                id
            },
            None => {
                assert(!before.contains(value@));
                let id: usize = self.next_id;
                bimap_insert(&mut self.intern_map, id, value);
                self.next_id = id + 1;
                assert(self@ =~= before.push(value@));
                id
            },
        }
    }

    /// How many values are interned, which is also the next id.
    pub fn len(&self) -> (count: usize)
        requires
            self.well_formed(),
        ensures
            count == self@.len(),
    {
        self.next_id
    }

    /// The value that `id` stands for.
    pub fn get(&self, id: usize) -> (value: &Vec<u8>)
        requires
            self.well_formed(),
            id < self@.len(),
        ensures
            value@ == self@[id as int],
    {
        match bimap_get_by_left(&self.intern_map, id) {
            Some(value) => value,
            None => {
                proof {
                    assert(false);
                }
                unreached()
            },
        }
    }
}

impl Default for Interner {
    /// An interner that holds nothing.
    fn default() -> (interner: Interner)
        ensures
            interner.well_formed(),
            interner@ == Seq::<Seq<u8>>::empty(),
    {
        let interner = Interner { next_id: 0, intern_map: bimap_new() };
        assert(interner@ =~= Seq::<Seq<u8>>::empty());
        interner
    }
}

/// Interning is idempotent: a value that is interned a second time gets the
/// id it got the first time and adds nothing, and that id stands for the
/// value.
pub proof fn lemma_intern_idempotent(values: Seq<Seq<u8>>, value: Seq<u8>)
    requires
        values.no_duplicates(),
    ensures
        ({
            let id = intern_id(values, value);
            let once = intern_values(values, value);
            &&& once.no_duplicates()
            &&& 0 <= id < once.len()
            &&& once[id] == value
            &&& intern_id(once, value) == id
            &&& intern_values(once, value) == once
        }),
{
    let id = intern_id(values, value);
    let once = intern_values(values, value);
    if values.contains(value) {
        assert(once[id] == value);
    } else {
        assert(once[id] == value);
        assert(once.contains(value));
        assert forall|i: int, j: int| 0 <= i < once.len() && 0 <= j < once.len() && i != j implies once[i]
            != once[j] by {
            if i == values.len() {
                assert(values.contains(once[j]));
            } else if j == values.len() {
                assert(values.contains(once[i]));
            }
        }
        let again = once.index_of(value);
        assert(once[again] == value);
    }
}

/// The values that were there keep their ids when one more is interned.
pub proof fn lemma_intern_keeps_ids(values: Seq<Seq<u8>>, value: Seq<u8>)
    ensures
        values.is_prefix_of(intern_values(values, value)),
{
}

} // verus!
