//! Mapped areas and the set of them that makes up one address space.

use vstd::prelude::*;
use crate::mm::address::{VPNRange, VirtPageNum};

verus! {

/// The access rights of a mapped area.
#[derive(Clone, Copy, Debug, PartialEq, Eq, Structural)]
pub struct MapPermission {
    pub readable: bool,
    pub writable: bool,
    pub executable: bool,
    pub user: bool,
}

impl MapPermission {
    /// Whether `port` names at least one of read, write and execute and
    /// nothing else: its value is between 1 and 7.
    pub open spec fn port_valid(port: usize) -> bool {
        1 <= port <= 7
    }

    /// The rights that request bits `port` stand for: bit 0 asks for read,
    /// bit 1 for write, bit 2 for execute. User access is always granted.
    pub open spec fn of_port(port: usize) -> MapPermission {
        MapPermission {
            readable: port % 2 == 1,
            writable: (port / 2) % 2 == 1,
            executable: (port / 4) % 2 == 1,
            user: true,
        }
    }

    /// Tests the request bits of a mapping request.
    pub fn check_port(port: usize) -> (ok: bool)
        ensures
            ok == Self::port_valid(port),
    {
        assert(((port & !7usize) == 0 && (port & 7usize) != 0) <==> (1 <= port <= 7))
            by (bit_vector);
        (port & !7usize) == 0 && (port & 7usize) != 0
    }

    /// Turns the request bits of a mapping request into access rights.
    pub fn from_port(port: usize) -> (permission: MapPermission)
        ensures
            permission == Self::of_port(port),
    {
        assert(((port & 1usize) != 0) <==> (port % 2 == 1)) by (bit_vector);
        assert(((port & 2usize) != 0) <==> ((port / 2) % 2 == 1)) by (bit_vector);
        assert(((port & 4usize) != 0) <==> ((port / 4) % 2 == 1)) by (bit_vector);
        MapPermission {
            readable: (port & 1usize) != 0,
            writable: (port & 2usize) != 0,
            executable: (port & 4usize) != 0,
            user: true,
        }
    }
}

/// One mapped region: a range of virtual pages and the rights on them.
#[derive(Clone, Copy, Debug, PartialEq, Eq, Structural)]
pub struct MapArea {
    pub vpn_range: VPNRange,
    pub map_perm: MapPermission,
}

/// Whether `range` shares a page with one of `areas`.
pub open spec fn overlaps_any(areas: Seq<MapArea>, range: VPNRange) -> bool {
    exists|i: int| 0 <= i < areas.len() && (#[trigger] areas[i]).vpn_range.overlaps(range)
}

/// Whether no two of `areas` share a page.
pub open spec fn pairwise_disjoint(areas: Seq<MapArea>) -> bool {
    forall|i: int, j: int|
        0 <= i < j < areas.len() ==> !(#[trigger] areas[i]).vpn_range.overlaps(
            (#[trigger] areas[j]).vpn_range,
        )
}

/// Whether `area` is one that a user request to unmap `range` addresses:
/// it covers exactly `range` and user code has access to it.
pub open spec fn unmap_matches(area: MapArea, range: VPNRange) -> bool {
    area.vpn_range == range && area.map_perm.user
}

/// Whether `index` is the first of `areas` that an unmap of `range` addresses.
pub open spec fn is_unmap_target(areas: Seq<MapArea>, range: VPNRange, index: int) -> bool {
    &&& 0 <= index < areas.len()
    &&& unmap_matches(areas[index], range)
    &&& forall|j: int| 0 <= j < index ==> !unmap_matches(#[trigger] areas[j], range)
}

/// The index of the first of `areas` that an unmap of `range` addresses,
/// or `None` where it addresses none of them.
pub open spec fn unmap_target(areas: Seq<MapArea>, range: VPNRange) -> Option<int> {
    if exists|k: int| is_unmap_target(areas, range, k) {
        Some(choose|k: int| is_unmap_target(areas, range, k))
    } else {
        None
    }
}

/// The mapped areas of one address space, in the order they were inserted,
/// and the token by which the hardware is told to use this address space.
#[derive(Debug, PartialEq, Eq)]
pub struct MemorySet {
    pub areas: Vec<MapArea>,
    pub root_token: usize,
}

impl View for MemorySet {
    type V = Seq<MapArea>;

    /// The areas of the set, in the order they were inserted.
    open spec fn view(&self) -> Seq<MapArea> {
        self.areas@
    }
}

impl MemorySet {
    /// An address space with no area.
    pub fn new_bare(root_token: usize) -> (set: Self)
        ensures
            set@ == Seq::<MapArea>::empty(),
            set.root_token == root_token,
    {
        MemorySet { areas: Vec::new(), root_token }
    }

    /// The token that identifies this address space to the hardware.
    pub fn token(&self) -> (token: usize)
        ensures
            token == self.root_token,
    {
        self.root_token
    }

    /// Adds the area `[start, end)` with rights `permission` behind the
    /// others. Nothing is tested here: keeping areas apart is the caller's
    /// concern.
    pub fn insert_framed_area(
        &mut self,
        start: VirtPageNum,
        end: VirtPageNum,
        permission: MapPermission,
    )
        ensures
            final(self)@ == old(self)@.push(
                MapArea { vpn_range: VPNRange { start, end }, map_perm: permission },
            ),
            final(self).root_token == old(self).root_token,
    {
        self.areas.push(MapArea { vpn_range: VPNRange::new(start, end), map_perm: permission });
    }

    /// Decides whether `range` shares a page with an area of this set.
    pub fn is_mapped(&self, range: VPNRange) -> (yes: bool)
        ensures
            yes == overlaps_any(self@, range),
    {
        let mut i: usize = 0;
        while i < self.areas.len()
            invariant
                i <= self.areas.len(),
                forall|k: int| 0 <= k < i ==> !(#[trigger] self@[k]).vpn_range.overlaps(range),
            decreases self.areas.len() - i,
        {
            if self.areas[i].vpn_range.is_overlap(range) {
                return true;
            }
            i += 1;
        }
        false
    }

    /// The first area that an unmap of `range` addresses, if there is one.
    pub fn find_unmap_target(&self, range: VPNRange) -> (found: Option<usize>)
        ensures
            found matches Some(index) ==> unmap_target(self@, range) == Some(index as int),
            found is None ==> unmap_target(self@, range) is None,
    {
        let mut i: usize = 0;
        while i < self.areas.len()
            invariant
                i <= self.areas.len(),
                forall|k: int| 0 <= k < i ==> !unmap_matches(#[trigger] self@[k], range),
            decreases self.areas.len() - i,
        {
            let area: MapArea = self.areas[i];
            if area.vpn_range == range && area.map_perm.user {
                proof {
                    lemma_unmap_target_is(self@, range, i as int);
                }
                return Some(i);
            }
            i += 1;
        }
        None
    }

    /// Takes the area at `index` out of the set and returns it. The others
    /// keep their order.
    pub fn remove_area(&mut self, index: usize) -> (area: MapArea)
        requires
            index < old(self)@.len(),
        ensures
            area == old(self)@[index as int],
            final(self)@ == old(self)@.remove(index as int),
            final(self).root_token == old(self).root_token,
    {
        self.areas.remove(index)
    }
}

/// The first area that an unmap addresses is the only index that
/// [`is_unmap_target`] holds of.
pub proof fn lemma_unmap_target_is(areas: Seq<MapArea>, range: VPNRange, index: int)
    requires
        is_unmap_target(areas, range, index),
    ensures
        unmap_target(areas, range) == Some(index),
{
    let chosen = choose|k: int| is_unmap_target(areas, range, k);
    if chosen < index {
        assert(!unmap_matches(areas[chosen], range));
    } else if index < chosen {
        assert(!unmap_matches(areas[index], range));
    }
}

/// An unmap finds its target wherever one of the areas matches it: the
/// target is then the first that does.
pub proof fn lemma_unmap_target_exists(areas: Seq<MapArea>, range: VPNRange, k: int)
    requires
        0 <= k < areas.len(),
        unmap_matches(areas[k], range),
    ensures
        unmap_target(areas, range) matches Some(index) && index <= k && is_unmap_target(
            areas,
            range,
            index,
        ),
    decreases k,
{
    if exists|j: int| 0 <= j < k && unmap_matches(#[trigger] areas[j], range) {
        let j = choose|j: int| 0 <= j < k && unmap_matches(#[trigger] areas[j], range);
        lemma_unmap_target_exists(areas, range, j);
    } else {
        lemma_unmap_target_is(areas, range, k);
    }
}

} // verus!
