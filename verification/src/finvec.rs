//! Finite definition tables and dense vectors indexed by them: the backing
//! for the ordered terrain-threshold table and per-category data.

use vstd::prelude::*;

verus! {

/// A dense zero-based index over a finite definition table.
pub trait FinIdx: Sized + Copy {
    spec fn spec_index(self) -> int;

    /// The position this index stands for.
    fn index(self) -> (r: usize)
        ensures
            r == self.spec_index(),
    ;

    /// The index standing for a position.
    fn of_index(i: usize) -> (r: Self)
        ensures
            r.spec_index() == i,
    ;
}

/// A record carrying an ascending threshold level.
pub trait Leveled {
    spec fn spec_level(&self) -> i64;

    /// The record's threshold level.
    fn level(&self) -> (r: i64)
        ensures
            r == self.spec_level(),
    ;
}

/// An ordered, finite definition table: one record per index value.
pub struct FinDef<K, V> {
    pub key: core::marker::PhantomData<K>,
    pub data: Vec<V>,
}

impl<K: FinIdx, V> FinDef<K, V> {
    pub fn new(data: Vec<V>) -> (r: Self)
        ensures
            r.data@ == data@,
    {
        FinDef { key: core::marker::PhantomData, data }
    }

    pub fn len(&self) -> (r: usize)
        ensures
            r == self.data@.len(),
    {
        self.data.len()
    }

    pub fn get(&self, k: K) -> (r: &V)
        requires
            0 <= k.spec_index() < self.data@.len(),
        ensures
            r == self.data@[k.spec_index()],
    {
        let i = k.index();
        &self.data[i]
    }
}

impl<K: FinIdx, V: Leveled> FinDef<K, V> {
    /// The smallest position whose level strictly exceeds the query: a
    /// query exactly equal to a threshold resolves to the record above it.
    pub fn idx_from_level(&self, tgt: i64) -> (r: usize)
        requires
            exists|i: int| 0 <= i < self.data@.len() && tgt < (#[trigger] self.data@[i]).spec_level(),
        ensures
            r < self.data@.len(),
            tgt < self.data@[r as int].spec_level(),
            forall|j: int| 0 <= j < r ==> tgt >= (#[trigger] self.data@[j]).spec_level(),
    {
        let n = self.data.len();
        let mut i: usize = 0;
        while i < n
            invariant
                i <= n,
                n == self.data@.len(),
                exists|k: int| 0 <= k < self.data@.len() && tgt < (#[trigger] self.data@[k]).spec_level(),
                forall|j: int| 0 <= j < i ==> tgt >= (#[trigger] self.data@[j]).spec_level(),
            decreases n - i,
        {
            if tgt < self.data[i].level() {
                return i;
            }
            i = i + 1;
        }
        proof {
            let k = choose|k: int|
                0 <= k < self.data@.len() && tgt < (#[trigger] self.data@[k]).spec_level();
            assert(false);
        }
        unreached()
    }

    /// The category of a level query, as an index value.
    pub fn from_level(&self, tgt: i64) -> (r: K)
        requires
            exists|i: int| 0 <= i < self.data@.len() && tgt < (#[trigger] self.data@[i]).spec_level(),
        ensures
            0 <= r.spec_index() < self.data@.len(),
            tgt < self.data@[r.spec_index()].spec_level(),
            forall|j: int| 0 <= j < r.spec_index() ==> tgt >= (#[trigger] self.data@[j]).spec_level(),
    {
        let i = self.idx_from_level(tgt);
        K::of_index(i)
    }

    /// The bracketing pair of a level query and the interpolation fraction
    /// between their levels, in thousandths; a degenerate bracket (equal
    /// levels, or a query below the very first record) yields a full
    /// fraction.
    pub fn from_level_range(&self, tgt: i64) -> (r: (K, K, i64))
        requires
            exists|i: int| 0 <= i < self.data@.len() && tgt < (#[trigger] self.data@[i]).spec_level(),
            -0x100_0000_0000 <= tgt <= 0x100_0000_0000,
            forall|i: int|
                0 <= i < self.data@.len() ==> -0x100_0000_0000 <= (
                #[trigger] self.data@[i]).spec_level() <= 0x100_0000_0000,
        ensures
            0 <= r.1.spec_index() < self.data@.len(),
            tgt < self.data@[r.1.spec_index()].spec_level(),
            forall|j: int|
                0 <= j < r.1.spec_index() ==> tgt >= (#[trigger] self.data@[j]).spec_level(),
            r.0.spec_index() == (if r.1.spec_index() == 0 {
                0int
            } else {
                r.1.spec_index() - 1
            }),
            r.2 == ({
                let low = self.data@[r.0.spec_index()].spec_level() as int;
                let high = self.data@[r.1.spec_index()].spec_level() as int;
                if high == low {
                    crate::SCALE as int
                } else if tgt < low {
                    crate::SCALE as int
                } else {
                    (tgt - low) * (crate::SCALE as int) / (high - low)
                }
            }),
            0 <= r.2 <= crate::SCALE,
    {
        let high_idx = self.idx_from_level(tgt);
        let low_idx = if high_idx == 0 {
            0
        } else {
            high_idx - 1
        };
        let high_l = self.data[high_idx].level();
        let low_l = self.data[low_idx].level();
        let t: i64 = if high_l == low_l {
            crate::SCALE
        } else if tgt < low_l {
            crate::SCALE
        } else {
            proof {
                assert(0 <= (tgt - low_l) as int * (crate::SCALE as int) <= (high_l - low_l) as int
                    * (crate::SCALE as int)) by (nonlinear_arith)
                    requires
                        0 <= tgt - low_l,
                        tgt < high_l,
                        low_l < high_l,
                ;
                assert(0 <= ((tgt - low_l) as int * (crate::SCALE as int)) / ((high_l
                    - low_l) as int) <= crate::SCALE as int) by (nonlinear_arith)
                    requires
                        0 < high_l - low_l,
                        0 <= (tgt - low_l) as int * (crate::SCALE as int) <= (high_l - low_l) as int
                            * (crate::SCALE as int),
                ;
            }
            (tgt - low_l) * crate::SCALE / (high_l - low_l)
        };
        (K::of_index(low_idx), K::of_index(high_idx), t)
    }
}

/// A dense vector with one value per record of a definition table.
pub struct FinVec<K, V> {
    pub key: core::marker::PhantomData<K>,
    pub data: Vec<V>,
}

impl<K: FinIdx, V: Copy> FinVec<K, V> {
    /// A vector holding `default` at every index of the definition.
    pub fn fill<T>(def: &FinDef<K, T>, default: V) -> (r: Self)
        ensures
            r.data@.len() == def.data@.len(),
            forall|i: int| 0 <= i < r.data@.len() ==> r.data@[i] == default,
    {
        let n = def.data.len();
        let mut data: Vec<V> = Vec::new();
        let mut i: usize = 0;
        while i < n
            invariant
                i <= n,
                data@.len() == i,
                forall|j: int| 0 <= j < i ==> data@[j] == default,
            decreases n - i,
        {
            data.push(default);
            i = i + 1;
        }
        FinVec { key: core::marker::PhantomData, data }
    }

    pub fn len(&self) -> (r: usize)
        ensures
            r == self.data@.len(),
    {
        self.data.len()
    }

    pub fn get(&self, k: K) -> (r: V)
        requires
            0 <= k.spec_index() < self.data@.len(),
        ensures
            r == self.data@[k.spec_index()],
    {
        let i = k.index();
        self.data[i]
    }

    pub fn set(&mut self, k: K, value: V)
        requires
            0 <= k.spec_index() < old(self).data@.len(),
        ensures
            final(self).data@ == old(self).data@.update(k.spec_index(), value),
    {
        let i = k.index();
        self.data.set(i, value);
    }
}

} // verus!
