//! A hash set of points.
//!
//! Each point is stored under a 128-bit key made of its two coordinates, so
//! that membership costs one hash lookup. Every key stands for exactly one
//! point of the plane, and the set is read as the points its keys stand for.

use crate::point::{cells_of, lemma_cells_of_push, Point};
use std::collections::HashSet;
use vstd::prelude::*;
use vstd::std_specs::cmp::PartialEqSpecImpl;
use vstd::std_specs::hash::spec_hash_keys_iter;
use vstd::std_specs::iter::IteratorSpec;

verus! {

/// Whether both coordinates fit in an `i64`.
pub open spec fn in_plane(c: (int, int)) -> bool {
    &&& i64::MIN <= c.0 <= i64::MAX
    &&& i64::MIN <= c.1 <= i64::MAX
}

/// The key of a coordinate pair: both coordinates shifted to be non-negative,
/// the first one in the upper 64 bits.
spec fn pack(c: (int, int)) -> int {
    (c.0 + 0x8000_0000_0000_0000) * 0x1_0000_0000_0000_0000 + (c.1 + 0x8000_0000_0000_0000)
}

/// Distinct points of the plane have distinct keys, and every key fits in 128 bits.
proof fn lemma_pack_injective(a: (int, int), b: (int, int))
    requires
        in_plane(a),
        in_plane(b),
    ensures
        0 <= pack(a) <= u128::MAX,
        pack(a) == pack(b) ==> a == b,
{
}

fn key_of(p: Point) -> (k: u128)
    ensures
        k == pack(p@),
{
    let hi: u128 = (p.x as i128 + 0x8000_0000_0000_0000i128) as u128;
    let lo: u128 = (p.y as i128 + 0x8000_0000_0000_0000i128) as u128;
    hi * 0x1_0000_0000_0000_0000u128 + lo
}

fn point_of(k: u128) -> (p: Point)
    ensures
        pack(p@) == k,
{
    let hi: u128 = k / 0x1_0000_0000_0000_0000u128;
    let lo: u128 = k % 0x1_0000_0000_0000_0000u128;
    let x: i64 = (hi as i128 - 0x8000_0000_0000_0000i128) as i64;
    let y: i64 = (lo as i128 - 0x8000_0000_0000_0000i128) as i64;
    Point { x, y }
}

/// A finite set of points.
#[derive(Debug)]
pub struct PointSet {
    keys: HashSet<u128>,
}

impl View for PointSet {
    type V = Set<(int, int)>;

    closed spec fn view(&self) -> Set<(int, int)> {
        Set::new(|c: (int, int)| in_plane(c) && self.keys@.contains(pack(c) as u128))
    }
}

impl PointSet {
    /// Every member has coordinates that fit in an `i64`.
    pub proof fn lemma_in_plane(&self)
        ensures
            forall|c: (int, int)| self@.contains(c) ==> in_plane(c),
    {
    }

    /// The set is finite.
    pub proof fn lemma_finite(&self)
        ensures
            self@.finite(),
    {
        let keys = spec_hash_keys_iter(&self.keys).remaining().unref();
        let cells = Seq::new(
            keys.len(),
            |i: int| choose|c: (int, int)| in_plane(c) && pack(c) == keys[i],
        );
        assert forall|c: (int, int)| self@.contains(c) implies cells.to_set().contains(c) by {
            let i = choose|i: int| 0 <= i < keys.len() && keys[i] == pack(c) as u128;
            lemma_pack_injective(c, cells[i]);
        }
        vstd::seq_lib::seq_to_set_is_finite(cells);
        vstd::set_lib::lemma_set_subset_finite(cells.to_set(), self@);
    }

    /// The empty set.
    pub fn new() -> (s: PointSet)
        ensures
            s@ == Set::<(int, int)>::empty(),
    {
        PointSet { keys: HashSet::new() }
    }

    /// Whether `p` is a member.
    pub fn contains(&self, p: &Point) -> (found: bool)
        ensures
            found == self@.contains(p@),
    {
        let k: u128 = key_of(*p);
        self.keys.contains(&k)
    }

    /// Adds `p`; returns whether it was absent before.
    pub fn insert(&mut self, p: Point) -> (added: bool)
        ensures
            final(self)@ == old(self)@.insert(p@),
            added == !old(self)@.contains(p@),
    {
        let k: u128 = key_of(p);
        let added = self.keys.insert(k);
        proof {
            assert forall|c: (int, int)|
                final(self)@.contains(c) == old(self)@.insert(p@).contains(c) by {
                if in_plane(c) {
                    lemma_pack_injective(c, p@);
                }
            }
        }
        added
    }

    /// Removes `p`; returns whether it was a member.
    pub fn remove(&mut self, p: &Point) -> (removed: bool)
        ensures
            final(self)@ == old(self)@.remove(p@),
            removed == old(self)@.contains(p@),
    {
        let k: u128 = key_of(*p);
        let removed = self.keys.remove(&k);
        proof {
            assert forall|c: (int, int)|
                final(self)@.contains(c) == old(self)@.remove(p@).contains(c) by {
                if in_plane(c) {
                    lemma_pack_injective(c, p@);
                }
            }
        }
        removed
    }

    /// The members, each once, in no particular order.
    pub fn points(&self) -> (list: Vec<Point>)
        ensures
            list@.no_duplicates(),
            cells_of(list@) == self@,
    {
        let mut list: Vec<Point> = Vec::new();
        let ghost keys: Seq<u128> = spec_hash_keys_iter(&self.keys).remaining().unref();
        for k in it: self.keys.iter()
            invariant
                it.seq().unref() == keys,
                list.len() == it.index(),
                forall|i: int| 0 <= i < list.len() ==> pack(#[trigger] list[i]@) == keys[i],
        {
            list.push(point_of(*k));
        }
        proof {
            assert forall|i: int, j: int|
                0 <= i < list.len() && 0 <= j < list.len() && i != j implies list[i] != list[j] by {
                assert(pack(list[i]@) == keys[i] && pack(list[j]@) == keys[j]);
            }
            assert forall|c: (int, int)| self@.contains(c) implies exists|i: int|
                0 <= i < list.len() && #[trigger] list[i]@ == c by {
                let i = choose|i: int| 0 <= i < keys.len() && keys[i] == pack(c) as u128;
                lemma_pack_injective(c, list[i]@);
            }
        }
        list
    }

    /// Whether every member is a member of `other` too.
    pub fn is_subset(&self, other: &PointSet) -> (within: bool)
        ensures
            within == self@.subset_of(other@),
    {
        let members = self.points();
        let mut i: usize = 0;
        while i < members.len()
            invariant
                i <= members.len(),
                cells_of(members@) == self@,
                forall|j: int| 0 <= j < i ==> other@.contains(#[trigger] members[j]@),
            decreases members.len() - i,
        {
            if !other.contains(&members[i]) {
                return false;
            }
            i += 1;
        }
        true
    }

    /// Removes every member.
    pub fn clear(&mut self)
        ensures
            final(self)@ == Set::<(int, int)>::empty(),
    {
        self.keys.clear();
    }
}

impl Default for PointSet {
    fn default() -> (s: PointSet)
        ensures
            s@ == Set::<(int, int)>::empty(),
    {
        PointSet::new()
    }
}

impl Clone for PointSet {
    fn clone(&self) -> (copy: PointSet)
        ensures
            copy@ == self@,
    {
        let members = self.points();
        let mut copy = PointSet::new();
        let mut i: usize = 0;
        while i < members.len()
            invariant
                i <= members.len(),
                copy@ == cells_of(members@.take(i as int)),
            decreases members.len() - i,
        {
            copy.insert(members[i]);
            proof {
                lemma_cells_of_push(members@.take(i as int), members[i as int]);
                assert(members@.take(i as int).push(members[i as int]) == members@.take(i + 1));
            }
            i += 1;
        }
        assert(members@.take(i as int) == members@);
        copy
    }
}

impl PartialEq for PointSet {
    fn eq(&self, other: &PointSet) -> (same: bool) {
        let same = self.is_subset(other) && other.is_subset(self);
        assert(same ==> self@ =~= other@);
        same
    }
}

impl PartialEqSpecImpl for PointSet {
    open spec fn obeys_eq_spec() -> bool {
        true
    }

    open spec fn eq_spec(&self, other: &PointSet) -> bool {
        self@ == other@
    }
}

} // verus!
