//! [`TileCache`]: a capacity-bounded map from [`TileCoord`] to [`TileData`]
//! with first-in-first-out eviction and dirty-tile tracking.
//!
//! Tiles are held in a `BTreeMap`, the insertion order in a `VecDeque` and
//! the dirty coordinates in a `BTreeSet`, each keyed by the coordinate packed
//! into one `u64` (column in the high half, row in the low half), so the
//! integer order of keys is the coordinate order.

use std::collections::{BTreeMap, BTreeSet, VecDeque};

use vstd::prelude::*;
use vstd::std_specs::btree::{increasing_seq, spec_btree_keys_iter};
use vstd::std_specs::iter::IteratorSpec;

use crate::ops::{coord_lt, TileCoord};
use crate::tile_data::TileData;

verus! {

/// Edge length of a tile in pixels.
pub const TILE_SIZE: u32 = 256;

/// How many tiles a default [`TileCache`] holds.
pub const DEFAULT_TILE_CACHE_CAPACITY: usize = 512;

/// Tiles by coordinate, at most `capacity` of them, evicting the oldest first
/// and dirty-tile tracking.
///
/// When the cache is full and a new coordinate arrives, the tile that was
/// inserted earliest is dropped. Updating a coordinate already present keeps
/// its place in the eviction order.
#[derive(Debug, Clone)]
pub struct TileCache {
    /// Cached tiles by packed coordinate.
    data: BTreeMap<u64, TileData>,
    /// Packed coordinates in insertion order (front = oldest).
    order: VecDeque<u64>,
    /// Packed coordinates modified since they were last marked clean.
    dirty: BTreeSet<u64>,
    capacity: usize,
}

/// The packed key of a coordinate: column in the high 32 bits, row in the
/// low 32 bits.
pub open spec fn coord_key(c: TileCoord) -> u64 {
    (c.tx as int * 0x1_0000_0000 + c.ty as int) as u64
}

/// The coordinate a packed key stands for.
pub open spec fn key_coord(k: u64) -> TileCoord {
    TileCoord { tx: (k / 0x1_0000_0000) as u32, ty: (k % 0x1_0000_0000) as u32 }
}

/// `s` is strictly increasing in [`coord_lt`] order.
pub open spec fn strictly_sorted(s: Seq<TileCoord>) -> bool {
    forall|a: int, b: int| 0 <= a < b < s.len() ==> coord_lt(#[trigger] s[a], #[trigger] s[b])
}

/// Packing and unpacking are inverse, and packing keeps the order.
proof fn lemma_key(c: TileCoord, d: TileCoord, k: u64)
    ensures
        coord_key(c) == c.tx as int * 0x1_0000_0000 + c.ty as int,
        key_coord(coord_key(c)) == c,
        coord_key(key_coord(k)) == k,
        coord_lt(c, d) <==> coord_key(c) < coord_key(d),
        coord_key(c) == coord_key(d) <==> c == d,
{
    let x = c.tx as int * 0x1_0000_0000 + c.ty as int;
    assert(0 <= x < 0x1_0000_0000_0000_0000) by (nonlinear_arith)
        requires
            x == c.tx as int * 0x1_0000_0000 + c.ty as int,
            c.tx < 0x1_0000_0000,
            c.ty < 0x1_0000_0000,
    ;
    assert(x / 0x1_0000_0000 == c.tx as int && x % 0x1_0000_0000 == c.ty as int) by (nonlinear_arith)
        requires
            x == c.tx as int * 0x1_0000_0000 + c.ty as int,
            0 <= c.tx < 0x1_0000_0000,
            0 <= c.ty < 0x1_0000_0000,
    ;
    let q = k / 0x1_0000_0000;
    let r = k % 0x1_0000_0000;
    assert(q * 0x1_0000_0000 + r == k && 0 <= q < 0x1_0000_0000 && 0 <= r < 0x1_0000_0000)
        by (nonlinear_arith)
        requires
            q == k / 0x1_0000_0000,
            r == k % 0x1_0000_0000,
            0 <= k < 0x1_0000_0000_0000_0000,
    ;
    let y = d.tx as int * 0x1_0000_0000 + d.ty as int;
    assert(coord_lt(c, d) <==> x < y) by (nonlinear_arith)
        requires
            x == c.tx as int * 0x1_0000_0000 + c.ty as int,
            y == d.tx as int * 0x1_0000_0000 + d.ty as int,
            0 <= c.ty < 0x1_0000_0000,
            0 <= d.ty < 0x1_0000_0000,
            coord_lt(c, d) <==> (c.tx < d.tx || (c.tx == d.tx && c.ty < d.ty)),
    ;
    assert(x == y <==> c == d) by (nonlinear_arith)
        requires
            x == c.tx as int * 0x1_0000_0000 + c.ty as int,
            y == d.tx as int * 0x1_0000_0000 + d.ty as int,
            0 <= c.ty < 0x1_0000_0000,
            0 <= d.ty < 0x1_0000_0000,
            0 <= c.tx < 0x1_0000_0000,
            0 <= d.tx < 0x1_0000_0000,
            c == d <==> (c.tx == d.tx && c.ty == d.ty),
    ;
    assert(0 <= y < 0x1_0000_0000_0000_0000) by (nonlinear_arith)
        requires
            y == d.tx as int * 0x1_0000_0000 + d.ty as int,
            d.tx < 0x1_0000_0000,
            d.ty < 0x1_0000_0000,
    ;
}

/// Packing is one-to-one and unpacking undoes it, for every coordinate and
/// every key.
proof fn lemma_key_all()
    ensures
        forall|c: TileCoord| #[trigger] key_coord(coord_key(c)) == c,
        forall|k: u64| #[trigger] coord_key(key_coord(k)) == k,
        forall|c: TileCoord, d: TileCoord| #[trigger] coord_key(c) == #[trigger] coord_key(d) ==> c == d,
{
    assert forall|c: TileCoord| #[trigger] key_coord(coord_key(c)) == c by {
        lemma_key(c, c, 0);
    }
    assert forall|k: u64| #[trigger] coord_key(key_coord(k)) == k by {
        lemma_key(key_coord(k), key_coord(k), k);
    }
    assert forall|c: TileCoord, d: TileCoord| #[trigger] coord_key(c) == #[trigger] coord_key(d) implies c == d by {
        lemma_key(c, d, 0);
    }
}

/// The packed key of `c`.
fn key_of(c: TileCoord) -> (r: u64)
    ensures
        r == coord_key(c),
{
    proof {
        lemma_key(c, c, 0);
    }
    c.tx as u64 * 0x1_0000_0000 + c.ty as u64
}

/// The coordinate that `k` packs.
fn coord_of(k: u64) -> (r: TileCoord)
    ensures
        r == key_coord(k),
{
    proof {
        lemma_key(key_coord(k), key_coord(k), k);
    }
    TileCoord { tx: (k / 0x1_0000_0000) as u32, ty: (k % 0x1_0000_0000) as u32 }
}

impl TileCache {
    /// Coordinates of the cached tiles, oldest first.
    pub closed spec fn order(&self) -> Seq<TileCoord> {
        self.order@.map_values(|k: u64| key_coord(k))
    }

    /// The cached tiles by coordinate.
    pub closed spec fn tiles(&self) -> Map<TileCoord, TileData> {
        Map::new(|c: TileCoord| self.data@.contains_key(coord_key(c)), |c: TileCoord| self.data@[coord_key(c)])
    }

    /// The coordinates modified since they were last marked clean.
    pub closed spec fn dirty_set(&self) -> Set<TileCoord> {
        Set::new(|c: TileCoord| self.dirty@.contains(coord_key(c)))
    }

    /// The capacity this cache was created with.
    pub closed spec fn spec_capacity(&self) -> usize {
        self.capacity
    }

    /// The cache's invariant: the eviction queue lists each cached tile once,
    /// every dirty coordinate names a cached tile, and the cache holds at
    /// most `capacity` tiles (or one tile, when the capacity is zero).
    pub closed spec fn wf(&self) -> bool {
        &&& self.order@.no_duplicates()
        &&& self.order@.to_set() == self.data@.dom()
        &&& self.dirty@.subset_of(self.data@.dom())
        &&& (self.order@.len() <= self.capacity || self.order@.len() <= 1)
    }

    /// What [`insert`](TileCache::insert) makes of `self` (as `after`).
    pub open spec fn inserted(self, coord: TileCoord, data: TileData, after: TileCache) -> bool {
        &&& after.spec_capacity() == self.spec_capacity()
        &&& if self.tiles().dom().contains(coord) {
            &&& after.order() == self.order()
            &&& after.tiles() == self.tiles().insert(coord, data)
            &&& after.dirty_set() == self.dirty_set().insert(coord)
        } else if self.order().len() >= self.spec_capacity() && self.order().len() > 0 {
            // The oldest tile makes room for the new one.
            let evicted = self.order()[0];
            &&& after.order() == self.order().drop_first().push(coord)
            &&& after.tiles() == self.tiles().remove(evicted).insert(coord, data)
            &&& after.dirty_set() == self.dirty_set().remove(evicted).insert(coord)
        } else {
            &&& after.order() == self.order().push(coord)
            &&& after.tiles() == self.tiles().insert(coord, data)
            &&& after.dirty_set() == self.dirty_set().insert(coord)
        }
    }

    proof fn lemma_wf_facts(&self)
        requires
            self.wf(),
        ensures
            self.order().len() == self.order@.len(),
            self.data@.dom().finite(),
            self.data@.dom().len() == self.order@.len(),
            self.order().no_duplicates(),
            self.tiles().dom() == self.order().to_set(),
            self.dirty_set().subset_of(self.tiles().dom()),
    {
        lemma_key_all();
        self.order@.unique_seq_to_set();
        assert forall|i: int, j: int| 0 <= i < self.order().len() && 0 <= j < self.order().len() && i != j
            implies self.order()[i] != self.order()[j] by {
            assert(coord_key(self.order()[i]) == self.order@[i]);
            assert(coord_key(self.order()[j]) == self.order@[j]);
        }
        assert forall|c: TileCoord| self.tiles().dom().contains(c) <==> self.order().to_set().contains(c) by {
            if self.tiles().dom().contains(c) {
                assert(self.order@.to_set().contains(coord_key(c)));
                let i = choose|i: int| 0 <= i < self.order@.len() && self.order@[i] == coord_key(c);
                assert(self.order()[i] == c);
            }
            if self.order().to_set().contains(c) {
                let i = choose|i: int| 0 <= i < self.order().len() && self.order()[i] == c;
                assert(self.order@.to_set().contains(self.order@[i]));
            }
        }
        assert(self.tiles().dom() =~= self.order().to_set());
    }

    /// The views after writing `d` under the key of `coord`.
    proof fn lemma_views_insert(m0: Map<u64, TileData>, m1: Map<u64, TileData>, coord: TileCoord, d: TileData)
        requires
            m1 == m0.insert(coord_key(coord), d),
        ensures
            Map::new(|c: TileCoord| m1.contains_key(coord_key(c)), |c: TileCoord| m1[coord_key(c)])
                == Map::new(|c: TileCoord| m0.contains_key(coord_key(c)), |c: TileCoord| m0[coord_key(c)]).insert(coord, d),
    {
        lemma_key_all();
        let a = Map::new(|c: TileCoord| m1.contains_key(coord_key(c)), |c: TileCoord| m1[coord_key(c)]);
        let b = Map::new(|c: TileCoord| m0.contains_key(coord_key(c)), |c: TileCoord| m0[coord_key(c)]).insert(coord, d);
        assert(a.dom() =~= b.dom());
        assert(a =~= b);
    }

    /// The views after removing the key of `coord`.
    proof fn lemma_views_remove(m0: Map<u64, TileData>, m1: Map<u64, TileData>, coord: TileCoord)
        requires
            m1 == m0.remove(coord_key(coord)),
        ensures
            Map::new(|c: TileCoord| m1.contains_key(coord_key(c)), |c: TileCoord| m1[coord_key(c)])
                == Map::new(|c: TileCoord| m0.contains_key(coord_key(c)), |c: TileCoord| m0[coord_key(c)]).remove(coord),
    {
        lemma_key_all();
        let a = Map::new(|c: TileCoord| m1.contains_key(coord_key(c)), |c: TileCoord| m1[coord_key(c)]);
        let b = Map::new(|c: TileCoord| m0.contains_key(coord_key(c)), |c: TileCoord| m0[coord_key(c)]).remove(coord);
        assert(a.dom() =~= b.dom());
        assert(a =~= b);
    }

    /// The dirty view after inserting or removing the key of `coord`.
    proof fn lemma_dirty_views(s0: Set<u64>, coord: TileCoord)
        ensures
            Set::new(|c: TileCoord| s0.insert(coord_key(coord)).contains(coord_key(c)))
                == Set::new(|c: TileCoord| s0.contains(coord_key(c))).insert(coord),
            Set::new(|c: TileCoord| s0.remove(coord_key(coord)).contains(coord_key(c)))
                == Set::new(|c: TileCoord| s0.contains(coord_key(c))).remove(coord),
    {
        lemma_key_all();
        assert(Set::new(|c: TileCoord| s0.insert(coord_key(coord)).contains(coord_key(c)))
            =~= Set::new(|c: TileCoord| s0.contains(coord_key(c))).insert(coord));
        assert(Set::new(|c: TileCoord| s0.remove(coord_key(coord)).contains(coord_key(c)))
            =~= Set::new(|c: TileCoord| s0.contains(coord_key(c))).remove(coord));
    }

    /// Create an empty cache with the given tile capacity.
    ///
    /// `capacity = 0` is valid: every insert of a new coordinate then evicts
    /// the previous tile.
    pub fn new(capacity: usize) -> (r: TileCache)
        ensures
            r.wf(),
            r.spec_capacity() == capacity,
            r.order() == Seq::<TileCoord>::empty(),
            r.tiles() == Map::<TileCoord, TileData>::empty(),
            r.dirty_set() == Set::<TileCoord>::empty(),
    {
        let r = TileCache { data: BTreeMap::new(), order: VecDeque::new(), dirty: BTreeSet::new(), capacity };
        assert(r.tiles() =~= Map::<TileCoord, TileData>::empty());
        assert(r.order() =~= Seq::<TileCoord>::empty());
        assert(r.dirty_set() =~= Set::<TileCoord>::empty());
        assert(r.order@.to_set() =~= r.data@.dom());
        r
    }

    /// Look up the tile at `coord`; `None` if it is not cached.
    pub fn get(&self, coord: TileCoord) -> (r: Option<&TileData>)
        ensures
            match r {
                Some(d) => self.tiles().dom().contains(coord) && *d == self.tiles()[coord],
                None => !self.tiles().dom().contains(coord),
            },
    {
        let k = key_of(coord);
        self.data.get(&k)
    }

    /// Writing any tile under the key of a cached `coord` keeps the keys and
    /// changes the tile view at `coord` alone.
    proof fn lemma_overwrite_all(m0: Map<u64, TileData>, coord: TileCoord)
        requires
            m0.contains_key(coord_key(coord)),
        ensures
            forall|d: TileData| #[trigger] m0.insert(coord_key(coord), d).dom() == m0.dom(),
            forall|d: TileData|
                Map::new(
                    |c: TileCoord| (#[trigger] m0.insert(coord_key(coord), d)).contains_key(coord_key(c)),
                    |c: TileCoord| m0.insert(coord_key(coord), d)[coord_key(c)],
                ) == Map::new(|c: TileCoord| m0.contains_key(coord_key(c)), |c: TileCoord| m0[coord_key(c)]).insert(coord, d),
    {
        assert forall|d: TileData| #[trigger] m0.insert(coord_key(coord), d).dom() == m0.dom() by {
            assert(m0.insert(coord_key(coord), d).dom() =~= m0.dom());
        }
        assert forall|d: TileData|
            Map::new(
                |c: TileCoord| (#[trigger] m0.insert(coord_key(coord), d)).contains_key(coord_key(c)),
                |c: TileCoord| m0.insert(coord_key(coord), d)[coord_key(c)],
            ) == Map::new(|c: TileCoord| m0.contains_key(coord_key(c)), |c: TileCoord| m0[coord_key(c)]).insert(coord, d) by {
            Self::lemma_views_insert(m0, m0.insert(coord_key(coord), d), coord, d);
        }
    }

    /// The tile at `coord` for writing; it is marked dirty.
    pub fn get_mut(&mut self, coord: TileCoord) -> (r: Option<&mut TileData>)
        requires
            old(self).wf(),
        ensures
            final(self).wf(),
            final(self).spec_capacity() == old(self).spec_capacity(),
            final(self).order() == old(self).order(),
            match r {
                Some(d) => {
                    &&& old(self).tiles().dom().contains(coord)
                    &&& *d == old(self).tiles()[coord]
                    &&& final(self).tiles() == old(self).tiles().insert(coord, *final(d))
                    &&& final(self).dirty_set() == old(self).dirty_set().insert(coord)
                },
                None => {
                    &&& !old(self).tiles().dom().contains(coord)
                    &&& final(self).tiles() == old(self).tiles()
                    &&& final(self).dirty_set() == old(self).dirty_set()
                },
            },
    {
        let k = key_of(coord);
        if !self.data.contains_key(&k) {
            return None;
        }
        self.dirty.insert(k);
        proof {
            Self::lemma_dirty_views(old(self).dirty@, coord);
            Self::lemma_overwrite_all(old(self).data@, coord);
        }
        tile_get_mut(&mut self.data, k)
    }

    /// Store `data` at `coord` (replacing any tile there) and mark it dirty.
    ///
    /// If the cache is at capacity and `coord` is new, the oldest tile is
    /// evicted first. Updating an existing coordinate keeps its eviction
    /// position.
    pub fn insert(&mut self, coord: TileCoord, data: TileData)
        requires
            old(self).wf(),
        ensures
            final(self).wf(),
            old(self).inserted(coord, data, *final(self)),
    {
        let k = key_of(coord);
        proof {
            old(self).lemma_wf_facts();
            lemma_key_all();
        }
        if self.data.contains_key(&k) {
            self.data.insert(k, data);
            self.dirty.insert(k);
            proof {
                Self::lemma_views_insert(old(self).data@, self.data@, coord, data);
                Self::lemma_dirty_views(old(self).dirty@, coord);
                assert(self.data@.dom() =~= old(self).data@.dom());
            }
            return;
        }
        let ghost q0 = self.order@;
        if self.data.len() >= self.capacity {
            match self.order.pop_front() {
                Some(ev) => {
                    let ghost m0 = self.data@;
                    let ghost s0 = self.dirty@;
                    self.data.remove(&ev);
                    self.dirty.remove(&ev);
                    proof {
                        assert(key_coord(ev) == old(self).order()[0]);
                        Self::lemma_views_remove(m0, self.data@, key_coord(ev));
                        Self::lemma_dirty_views(s0, key_coord(ev));
                        assert(self.order@ =~= q0.drop_first());
                        assert(q0.to_set().contains(q0[0]));
                    }
                },
                None => {},
            }
        }
        let ghost q1 = self.order@;
        let ghost m1 = self.data@;
        let ghost s1 = self.dirty@;
        self.order.push_back(k);
        self.data.insert(k, data);
        self.dirty.insert(k);
        proof {
            Self::lemma_views_insert(m1, self.data@, coord, data);
            Self::lemma_dirty_views(s1, coord);
            if q1.len() < q0.len() {
                assert(q1 =~= q0.drop_first());
                assert forall|x: u64| q1.contains(x) <==> (q0.contains(x) && x != q0[0]) by {
                    if q1.contains(x) {
                        let i = choose|i: int| 0 <= i < q1.len() && q1[i] == x;
                        assert(q0[i + 1] == x);
                    }
                    if q0.contains(x) && x != q0[0] {
                        let i = choose|i: int| 0 <= i < q0.len() && q0[i] == x;
                        assert(q1[i - 1] == x);
                    }
                }
                assert(q1.to_set() =~= q0.to_set().remove(q0[0]));
                assert(m1.dom() =~= old(self).data@.dom().remove(q0[0]));
            } else {
                assert(q1 == q0);
            }
            assert(!q1.contains(k)) by {
                if q1.contains(k) {
                    assert(q1.to_set().contains(k));
                }
            }
            assert(self.order@ =~= q1.push(k));
            assert forall|x: u64| self.order@.contains(x) <==> (q1.contains(x) || x == k) by {
                if self.order@.contains(x) {
                    let i = choose|i: int| 0 <= i < self.order@.len() && self.order@[i] == x;
                    if i < q1.len() {
                        assert(q1[i] == x);
                    }
                }
                if q1.contains(x) {
                    let i = choose|i: int| 0 <= i < q1.len() && q1[i] == x;
                    assert(self.order@[i] == x);
                }
                if x == k {
                    assert(self.order@[q1.len() as int] == x);
                }
            }
            assert(self.order@.to_set() =~= q1.to_set().insert(k));
            assert(self.data@.dom() =~= m1.dom().insert(k));
            if q1.len() == q0.len() {
                assert(self.order() =~= old(self).order().push(coord));
            } else {
                assert(self.order() =~= old(self).order().drop_first().push(coord));
            }
        }
    }

    /// Take the tile at `coord` out of the cache, if there is one.
    pub fn remove(&mut self, coord: TileCoord) -> (r: Option<TileData>)
        requires
            old(self).wf(),
        ensures
            final(self).wf(),
            final(self).spec_capacity() == old(self).spec_capacity(),
            match r {
                Some(d) => {
                    &&& old(self).tiles().dom().contains(coord)
                    &&& d == old(self).tiles()[coord]
                    &&& final(self).tiles() == old(self).tiles().remove(coord)
                    &&& exists|i: int|
                        0 <= i < old(self).order().len() && old(self).order()[i] == coord
                            && final(self).order() == old(self).order().remove(i)
                    &&& final(self).dirty_set() == old(self).dirty_set().remove(coord)
                },
                None => {
                    &&& !old(self).tiles().dom().contains(coord)
                    &&& final(self).tiles() == old(self).tiles()
                    &&& final(self).order() == old(self).order()
                    &&& final(self).dirty_set() == old(self).dirty_set()
                },
            },
    {
        let k = key_of(coord);
        let ghost m0 = self.data@;
        let ghost s0 = self.dirty@;
        let ghost q0 = self.order@;
        proof {
            lemma_key_all();
        }
        match self.data.remove(&k) {
            None => {
                proof {
                    assert(self.data@ =~= m0);
                }
                None
            },
            Some(d) => {
                self.dirty.remove(&k);
                proof {
                    Self::lemma_views_remove(m0, self.data@, coord);
                    Self::lemma_dirty_views(s0, coord);
                    assert(q0.to_set().contains(k));
                }
                let mut i: usize = 0;
                while i < self.order.len() && self.order[i] != k
                    invariant
                        self.order@ == q0,
                        q0.contains(k),
                        i <= q0.len(),
                        forall|j: int| 0 <= j < i ==> q0[j] != k,
                    decreases q0.len() - i,
                {
                    i = i + 1;
                }
                self.order.remove(i);
                proof {
                    assert(q0[i as int] == k);
                    assert(self.order@ == q0.remove(i as int));
                    assert(old(self).order()[i as int] == coord);
                    assert(self.order() =~= old(self).order().remove(i as int));
                    assert forall|x: u64| self.order@.contains(x) <==> (q0.contains(x) && x != k) by {
                        if self.order@.contains(x) {
                            let j = choose|j: int| 0 <= j < self.order@.len() && self.order@[j] == x;
                            if j < i {
                                assert(q0[j] == x);
                            } else {
                                assert(q0[j + 1] == x);
                            }
                        }
                        if q0.contains(x) && x != k {
                            let j = choose|j: int| 0 <= j < q0.len() && q0[j] == x;
                            if j < i {
                                assert(self.order@[j] == x);
                            } else {
                                assert(j != i);
                                assert(self.order@[j - 1] == x);
                            }
                        }
                    }
                    assert(self.order@.to_set() =~= self.data@.dom());
                }
                Some(d)
            },
        }
    }

    /// The coordinates modified since they were last marked clean, in
    /// increasing order.
    pub fn dirty_coords(&self) -> (r: Vec<TileCoord>)
        requires
            self.wf(),
        ensures
            r@.no_duplicates(),
            strictly_sorted(r@),
            r@.to_set() == self.dirty_set(),
            r@.to_set().subset_of(self.tiles().dom()),
    {
        proof {
            self.lemma_wf_facts();
            lemma_key_all();
        }
        let mut out: Vec<TileCoord> = Vec::new();
        for k in it: self.dirty.iter()
            invariant
                it.seq() == spec_btree_keys_iter(&self.dirty).remaining(),
                out@.len() == it.index(),
                forall|j: int| 0 <= j < it.index() ==> out@[j] == key_coord(*#[trigger] it.seq()[j]),
        {
            out.push(coord_of(*k));
        }
        proof {
            let rem = spec_btree_keys_iter(&self.dirty).remaining();
            assert(increasing_seq(rem));
            assert forall|a: int, b: int| 0 <= a < b < out@.len() implies coord_lt(
                #[trigger] out@[a],
                #[trigger] out@[b],
            ) by {
                lemma_increasing_keys(rem, a, b);
                lemma_key(out@[a], out@[b], 0);
            }
            assert forall|c: TileCoord| out@.to_set().contains(c) <==> self.dirty_set().contains(c) by {
                if out@.to_set().contains(c) {
                    let j = choose|j: int| 0 <= j < out@.len() && out@[j] == c;
                    assert(rem.unref().to_set().contains(rem.unref()[j]));
                }
                if self.dirty_set().contains(c) {
                    assert(rem.unref().to_set().contains(coord_key(c)));
                    let j = choose|j: int| 0 <= j < rem.unref().len() && rem.unref()[j] == coord_key(c);
                    assert(out@[j] == c);
                }
            }
            assert(out@.to_set() =~= self.dirty_set());
        }
        out
    }

    /// Mark `coord` as clean (e.g. after flushing it to disk).
    pub fn mark_clean(&mut self, coord: TileCoord)
        requires
            old(self).wf(),
        ensures
            final(self).wf(),
            final(self).spec_capacity() == old(self).spec_capacity(),
            final(self).order() == old(self).order(),
            final(self).tiles() == old(self).tiles(),
            final(self).dirty_set() == old(self).dirty_set().remove(coord),
    {
        let k = key_of(coord);
        self.dirty.remove(&k);
        proof {
            Self::lemma_dirty_views(old(self).dirty@, coord);
        }
    }
}

/// Keys listed in increasing order are increasing as integers.
proof fn lemma_increasing_keys(rem: Seq<&u64>, a: int, b: int)
    requires
        increasing_seq(rem),
        0 <= a < b < rem.len(),
    ensures
        *rem[a] < *rem[b],
{
    assert(vstd::std_specs::cmp::OrdSpec::cmp_spec(&rem[a], &rem[b]) is Less);
}

/// `BTreeMap::get_mut` on the tile map: a mutable borrow of the tile under
/// `k` when there is one. What is written through the borrow becomes the
/// map's value under `k`; the map is otherwise unchanged.
#[verifier::external_body]
fn tile_get_mut(m: &mut BTreeMap<u64, TileData>, k: u64) -> (r: Option<&mut TileData>)
    ensures
        match r {
            Some(v) => {
                &&& old(m)@.contains_key(k)
                &&& *v == old(m)@[k]
                &&& final(m)@ == old(m)@.insert(k, *final(v))
            },
            None => !old(m)@.contains_key(k) && final(m)@ == old(m)@,
        },
{
    m.get_mut(&k)
}

/// The cache never holds a coordinate twice, holds at most `capacity` tiles
/// (one, when the capacity is zero), and every dirty coordinate names a
/// cached tile.
pub proof fn law_cache_bounded(c: TileCache)
    requires
        c.wf(),
    ensures
        c.order().no_duplicates(),
        c.tiles().dom() == c.order().to_set(),
        c.order().len() <= c.spec_capacity() || c.order().len() <= 1,
        c.dirty_set().subset_of(c.tiles().dom()),
{
    c.lemma_wf_facts();
}

/// A tile that was inserted can be read back, and is marked dirty.
pub proof fn law_insert_then_get(before: TileCache, after: TileCache, coord: TileCoord, data: TileData)
    requires
        before.wf(),
        before.inserted(coord, data, after),
    ensures
        after.tiles().dom().contains(coord),
        after.tiles()[coord] == data,
        after.dirty_set().contains(coord),
{
}

/// Inserting a new coordinate into a full cache evicts exactly the oldest
/// tile; every other tile stays.
pub proof fn law_fifo_eviction(before: TileCache, after: TileCache, coord: TileCoord, data: TileData, k: TileCoord)
    requires
        before.wf(),
        before.inserted(coord, data, after),
        !before.tiles().dom().contains(coord),
        before.order().len() >= before.spec_capacity(),
        before.order().len() > 0,
    ensures
        !after.tiles().dom().contains(before.order()[0]) || before.order()[0] == coord,
        before.tiles().dom().contains(k) && k != before.order()[0] ==> after.tiles().dom().contains(k)
            && after.tiles()[k] == before.tiles()[k],
{
}

impl Default for TileCache {
    fn default() -> (r: TileCache)
        ensures
            r.wf(),
            r.spec_capacity() == DEFAULT_TILE_CACHE_CAPACITY,
            r.order() == Seq::<TileCoord>::empty(),
            r.dirty_set() == Set::<TileCoord>::empty(),
    {
        TileCache::new(DEFAULT_TILE_CACHE_CAPACITY)
    }
}

} // verus!
