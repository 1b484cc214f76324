//! Field containers: dense per-entity value arrays indexed 1:1 with the
//! mesh's cells, vertices and edges.
//!
//! The containers own no topology; they are rebuilt whenever the mesh
//! changes.  The scalar operations the generation pipeline relies on are
//! exact: each states its result element by element, so the whole pipeline
//! is a function of its inputs.

use vstd::prelude::*;

use crate::mesh::CellId;
use crate::mesh::PolyMap;
use crate::mesh::VertexId;
use crate::rng::Rng;

verus! {

/// The integer view of a fixed-width scalar sequence.
pub open spec fn ints(d: Seq<i64>) -> Seq<int> {
    d.map_values(|x: i64| x as int)
}

/// A value per mesh vertex.
pub struct VertexData<T> {
    pub data: Vec<T>,
}

/// A value per mesh edge.
pub struct EdgeData<T> {
    pub data: Vec<T>,
}

/// A value per mesh cell.
pub struct CellData<T> {
    pub data: Vec<T>,
}

impl<T> VertexData<T> {
    /// A container with no entries, to be replaced before use.
    pub fn empty_shell() -> (r: Self)
        ensures
            r.data@.len() == 0,
    {
        VertexData { data: Vec::new() }
    }

    pub fn len(&self) -> (r: usize)
        ensures
            r == self.data@.len(),
    {
        self.data.len()
    }

    pub fn get(&self, id: VertexId) -> (r: &T)
        requires
            id.0 < self.data@.len(),
        ensures
            r == self.data@[id.0 as int],
    {
        &self.data[id.0]
    }

    pub fn set(&mut self, id: VertexId, value: T)
        requires
            id.0 < old(self).data@.len(),
        ensures
            final(self).data@ == old(self).data@.update(id.0 as int, value),
    {
        self.data.set(id.0, value);
    }
}

impl<T: Copy> VertexData<T> {
    /// A container holding `value` at every vertex of the mesh.
    pub fn fill(mesh: &PolyMap, value: T) -> (r: Self)
        ensures
            r.data@.len() == mesh.nv(),
            forall|i: int| 0 <= i < r.data@.len() ==> r.data@[i] == value,
    {
        let n = mesh.num_vertices();
        let mut data: Vec<T> = Vec::new();
        let mut i: usize = 0;
        while i < n
            invariant
                i <= n,
                data@.len() == i,
                forall|j: int| 0 <= j < i ==> data@[j] == value,
            decreases n - i,
        {
            data.push(value);
            i = i + 1;
        }
        VertexData { data }
    }
}

impl<T> EdgeData<T> {
    /// A container with no entries, to be replaced before use.
    pub fn empty_shell() -> (r: Self)
        ensures
            r.data@.len() == 0,
    {
        EdgeData { data: Vec::new() }
    }

    pub fn len(&self) -> (r: usize)
        ensures
            r == self.data@.len(),
    {
        self.data.len()
    }

    pub fn get(&self, id: crate::mesh::EdgeId) -> (r: &T)
        requires
            id.0 < self.data@.len(),
        ensures
            r == self.data@[id.0 as int],
    {
        &self.data[id.0]
    }
}

impl<T> CellData<T> {
    /// A container with no entries, to be replaced before use.
    pub fn empty_shell() -> (r: Self)
        ensures
            r.data@.len() == 0,
    {
        CellData { data: Vec::new() }
    }

    pub fn len(&self) -> (r: usize)
        ensures
            r == self.data@.len(),
    {
        self.data.len()
    }

    pub fn get(&self, id: CellId) -> (r: &T)
        requires
            id.0 < self.data@.len(),
        ensures
            r == self.data@[id.0 as int],
    {
        &self.data[id.0]
    }

    pub fn set(&mut self, id: CellId, value: T)
        requires
            id.0 < old(self).data@.len(),
        ensures
            final(self).data@ == old(self).data@.update(id.0 as int, value),
    {
        self.data.set(id.0, value);
    }
}

impl<T: Copy> CellData<T> {
    /// A container holding `value` at every cell of the mesh.
    pub fn fill(mesh: &PolyMap, value: T) -> (r: Self)
        ensures
            r.data@.len() == mesh.nc(),
            forall|i: int| 0 <= i < r.data@.len() ==> r.data@[i] == value,
    {
        let n = mesh.num_cells();
        let mut data: Vec<T> = Vec::new();
        let mut i: usize = 0;
        while i < n
            invariant
                i <= n,
                data@.len() == i,
                forall|j: int| 0 <= j < i ==> data@[j] == value,
            decreases n - i,
        {
            data.push(value);
            i = i + 1;
        }
        CellData { data }
    }
}

/// Largest admissible per-vertex innate value handed to `flow`.
pub const FLOW_INPUT_LIMIT: i64 = 0x10_0000;

/// Largest value `flow` can produce: the whole mass of the system.
pub const FLOW_OUTPUT_LIMIT: i64 = 0x10_0000_0000;

/// `v` forwards its value in one of the first `upto` pairs.
pub open spec fn is_source_upto(pairs: Seq<(usize, usize)>, upto: int, v: int) -> bool {
    exists|j: int| 0 <= j < upto && #[trigger] pairs[j].0 == v
}

/// Sum of the entries at indices below `n` that do not forward their value
/// in the first `upto` pairs.
pub open spec fn sum_unforwarded(d: Seq<int>, pairs: Seq<(usize, usize)>, upto: int, n: int) -> int
    decreases n,
{
    if n <= 0 {
        0
    } else {
        sum_unforwarded(d, pairs, upto, n - 1) + if is_source_upto(pairs, upto, n - 1) {
            0
        } else {
            d[n - 1]
        }
    }
}

/// The flow fold: each pair `(from, to)` in order adds the current value at
/// `from` onto the value at `to`.
pub open spec fn flow_spec(d: Seq<int>, pairs: Seq<(usize, usize)>, upto: int) -> Seq<int>
    decreases upto,
{
    if upto <= 0 {
        d
    } else {
        let prev = flow_spec(d, pairs, upto - 1);
        let f = pairs[upto - 1].0 as int;
        let t = pairs[upto - 1].1 as int;
        prev.update(t, prev[t] + prev[f])
    }
}

proof fn lemma_sum_nonneg(d: Seq<int>, pairs: Seq<(usize, usize)>, upto: int, n: int)
    requires
        n <= d.len(),
        forall|v: int| 0 <= v < d.len() ==> d[v] >= 0,
    ensures
        sum_unforwarded(d, pairs, upto, n) >= 0,
    decreases n,
{
    if n > 0 {
        lemma_sum_nonneg(d, pairs, upto, n - 1);
    }
}

proof fn lemma_sum_update(
    d: Seq<int>,
    pairs: Seq<(usize, usize)>,
    upto: int,
    n: int,
    t: int,
    x: int,
)
    requires
        0 <= t < d.len(),
        n <= d.len(),
    ensures
        sum_unforwarded(d.update(t, x), pairs, upto, n) == sum_unforwarded(d, pairs, upto, n) + if t
            < n && !is_source_upto(pairs, upto, t) {
            x - d[t]
        } else {
            0
        },
    decreases n,
{
    if n > 0 {
        lemma_sum_update(d, pairs, upto, n - 1, t, x);
    }
}

proof fn lemma_sum_extend(d: Seq<int>, pairs: Seq<(usize, usize)>, upto: int, n: int)
    requires
        0 <= upto < pairs.len(),
        n <= d.len(),
        forall|i: int, j: int| 0 <= i < j < pairs.len() ==> pairs[i].0 != pairs[j].0,
    ensures
        sum_unforwarded(d, pairs, upto + 1, n) == sum_unforwarded(d, pairs, upto, n) - if pairs[upto].0
            < n {
            d[pairs[upto].0 as int]
        } else {
            0
        },
    decreases n,
{
    if n > 0 {
        lemma_sum_extend(d, pairs, upto, n - 1);
        let v = n - 1;
        assert(is_source_upto(pairs, upto + 1, v) == (is_source_upto(pairs, upto, v)
            || pairs[upto].0 == v));
        if pairs[upto].0 == v {
            assert(!is_source_upto(pairs, upto, v));
        }
    }
}

proof fn lemma_entry_le_sum(d: Seq<int>, pairs: Seq<(usize, usize)>, upto: int, n: int, v: int)
    requires
        n <= d.len(),
        0 <= v < n,
        !is_source_upto(pairs, upto, v),
        forall|w: int| 0 <= w < d.len() ==> d[w] >= 0,
    ensures
        d[v] <= sum_unforwarded(d, pairs, upto, n),
    decreases n,
{
    if v == n - 1 {
        lemma_sum_nonneg(d, pairs, upto, n - 1);
    } else {
        lemma_entry_le_sum(d, pairs, upto, n - 1, v);
    }
}

proof fn lemma_two_entries_le_sum(
    d: Seq<int>,
    pairs: Seq<(usize, usize)>,
    upto: int,
    n: int,
    v1: int,
    v2: int,
)
    requires
        n <= d.len(),
        0 <= v1 < n,
        0 <= v2 < n,
        v1 != v2,
        !is_source_upto(pairs, upto, v1),
        !is_source_upto(pairs, upto, v2),
        forall|w: int| 0 <= w < d.len() ==> d[w] >= 0,
    ensures
        d[v1] + d[v2] <= sum_unforwarded(d, pairs, upto, n),
    decreases n,
{
    if v1 == n - 1 {
        lemma_entry_le_sum(d, pairs, upto, n - 1, v2);
    } else if v2 == n - 1 {
        lemma_entry_le_sum(d, pairs, upto, n - 1, v1);
    } else {
        lemma_two_entries_le_sum(d, pairs, upto, n - 1, v1, v2);
    }
}

proof fn lemma_sum_le_bound(d: Seq<int>, pairs: Seq<(usize, usize)>, n: int, bound: int)
    requires
        0 <= n <= d.len(),
        bound >= 0,
        forall|w: int| 0 <= w < d.len() ==> d[w] <= bound,
    ensures
        sum_unforwarded(d, pairs, 0, n) <= n * bound,
    decreases n,
{
    if n > 0 {
        lemma_sum_le_bound(d, pairs, n - 1, bound);
        assert((n - 1) * bound + bound == n * bound) by (nonlinear_arith);
    }
}

impl VertexData<i64> {
    /// Propagates values along directed pairs in the caller-supplied order:
    /// for each `(from, to)`, the value at `from` is added onto the value
    /// at `to`.  The order must let every vertex forward its value at most
    /// once and only before anything more is added to it, as a topological
    /// order of a descent graph does; the result is then exactly the flow
    /// fold, and the total mass held by vertices that never forward is the
    /// total innate mass: accumulation is conservative.
    pub fn flow(&mut self, pairs: &Vec<(usize, usize)>)
        requires
            forall|i: int|
                0 <= i < pairs@.len() ==> #[trigger] pairs@[i].0 < old(self).data@.len()
                    && pairs@[i].1 < old(self).data@.len() && pairs@[i].0 != pairs@[i].1,
            forall|i: int, j: int| 0 <= i < j < pairs@.len() ==> pairs@[i].0 != pairs@[j].0,
            forall|i: int, j: int| 0 <= j <= i < pairs@.len() ==> pairs@[i].1 != pairs@[j].0,
            forall|v: int|
                0 <= v < old(self).data@.len() ==> 0 <= #[trigger] old(self).data@[v]
                    <= FLOW_INPUT_LIMIT,
            old(self).data@.len() <= 0x1_0000,
        ensures
            final(self).data@.len() == old(self).data@.len(),
            ints(final(self).data@) == flow_spec(
                ints(old(self).data@),
                pairs@,
                pairs@.len() as int,
            ),
            sum_unforwarded(
                ints(final(self).data@),
                pairs@,
                pairs@.len() as int,
                final(self).data@.len() as int,
            ) == sum_unforwarded(ints(old(self).data@), pairs@, 0, old(self).data@.len() as int),
            forall|v: int|
                0 <= v < final(self).data@.len() ==> 0 <= #[trigger] final(self).data@[v]
                    <= FLOW_OUTPUT_LIMIT,
    {
        let ghost d0 = ints(self.data@);
        let n = self.data.len();
        let ghost nn = n as int;
        let ghost s0 = sum_unforwarded(d0, pairs@, 0, nn);
        proof {
            lemma_sum_le_bound(d0, pairs@, nn, FLOW_INPUT_LIMIT as int);
            lemma_sum_nonneg(d0, pairs@, 0, nn);
            assert(nn * (FLOW_INPUT_LIMIT as int) <= 0x1_0000 * (FLOW_INPUT_LIMIT as int))
                by (nonlinear_arith)
                requires
                    nn <= 0x1_0000,
            ;
            assert forall|v: int| 0 <= v < nn implies 0 <= #[trigger] ints(self.data@)[v] <= s0 by {
                lemma_entry_le_sum(d0, pairs@, 0, nn, v);
            };
        }
        let np = pairs.len();
        let mut i: usize = 0;
        while i < np
            invariant
                i <= np,
                np == pairs@.len(),
                self.data@.len() == nn,
                nn <= 0x1_0000,
                0 <= s0 <= 0x10_0000_0000,
                forall|k: int|
                    0 <= k < pairs@.len() ==> #[trigger] pairs@[k].0 < nn && pairs@[k].1 < nn
                        && pairs@[k].0 != pairs@[k].1,
                forall|k: int, j: int| 0 <= k < j < pairs@.len() ==> pairs@[k].0 != pairs@[j].0,
                forall|k: int, j: int| 0 <= j <= k < pairs@.len() ==> pairs@[k].1 != pairs@[j].0,
                ints(self.data@) == flow_spec(d0, pairs@, i as int),
                sum_unforwarded(ints(self.data@), pairs@, i as int, nn) == s0,
                forall|v: int| 0 <= v < nn ==> 0 <= #[trigger] ints(self.data@)[v] <= s0,
            decreases np - i,
        {
            let ghost cur = ints(self.data@);
            let f = pairs[i].0;
            let t = pairs[i].1;
            proof {
                assert(!is_source_upto(pairs@, i as int, f as int));
                assert(!is_source_upto(pairs@, (i + 1) as int, t as int));
                assert(!is_source_upto(pairs@, i as int, t as int));
                lemma_two_entries_le_sum(cur, pairs@, i as int, nn, f as int, t as int);
            }
            let source: i64 = self.data[f];
            let target: i64 = self.data[t];
            let updated: i64 = target + source;
            self.data.set(t, updated);
            proof {
                let next = ints(self.data@);
                assert(next =~= cur.update(t as int, cur[t as int] + cur[f as int]));
                assert(next =~= flow_spec(d0, pairs@, (i + 1) as int));
                lemma_sum_update(cur, pairs@, (i + 1) as int, nn, t as int, cur[t as int] + cur[f as int]);
                lemma_sum_extend(cur, pairs@, i as int, nn);
                assert(sum_unforwarded(cur, pairs@, (i + 1) as int, nn) == s0 - cur[f as int]);
                assert(sum_unforwarded(next, pairs@, (i + 1) as int, nn) == s0);
                assert forall|v: int| 0 <= v < nn implies 0 <= #[trigger] next[v] <= s0 by {
                    if v == t {
                        assert(next[v] == cur[t as int] + cur[f as int]);
                    } else {
                        assert(next[v] == cur[v]);
                        if !is_source_upto(pairs@, (i + 1) as int, v) {
                            lemma_entry_le_sum(next, pairs@, (i + 1) as int, nn, v);
                        } else {
                        }
                    }
                };
            }
            i = i + 1;
        }
        proof {
            assert forall|v: int|
                0 <= v < self.data@.len() implies 0 <= #[trigger] self.data@[v]
                && self.data@[v] <= FLOW_OUTPUT_LIMIT by {
                assert(ints(self.data@)[v] == self.data@[v] as int);
            };
        }
    }
}

/// The index view of a vertex id sequence.
pub open spec fn vids(s: Seq<VertexId>) -> Seq<usize> {
    s.map_values(|v: VertexId| v.0)
}

/// Strict placement order of the descending schedule: the higher value
/// comes first, equal values are broken by ascending id.
pub open spec fn sorts_before(d: Seq<i64>, a: int, b: int) -> bool {
    d[a] > d[b] || (d[a] == d[b] && a < b)
}

/// Insertion of `x` into an already ordered id sequence.
pub open spec fn insert_desc(d: Seq<i64>, s: Seq<usize>, x: usize) -> Seq<usize>
    decreases s.len(),
{
    if s.len() == 0 {
        seq![x]
    } else if sorts_before(d, x as int, s[0] as int) {
        seq![x] + s
    } else {
        seq![s[0]] + insert_desc(d, s.subrange(1, s.len() as int), x)
    }
}

/// The ids `0..k`, ordered by descending value with ascending id tie-break.
pub open spec fn sort_desc_upto(d: Seq<i64>, k: int) -> Seq<usize>
    decreases k,
{
    if k <= 0 {
        Seq::empty()
    } else {
        insert_desc(d, sort_desc_upto(d, k - 1), (k - 1) as usize)
    }
}

/// The whole descending-value schedule over a field.
pub open spec fn sort_desc(d: Seq<i64>) -> Seq<usize> {
    sort_desc_upto(d, d.len() as int)
}

/// Every pair of positions is strictly ordered.
pub open spec fn sorted_desc(d: Seq<i64>, s: Seq<usize>) -> bool {
    forall|i: int, j: int|
        0 <= i < j < s.len() ==> sorts_before(d, #[trigger] s[i] as int, #[trigger] s[j] as int)
}

proof fn lemma_insert_facts(d: Seq<i64>, s: Seq<usize>, x: usize)
    requires
        forall|j: int| 0 <= j < s.len() ==> #[trigger] s[j] != x,
        sorted_desc(d, s),
    ensures
        insert_desc(d, s, x).len() == s.len() + 1,
        forall|y: usize| #[trigger] insert_desc(d, s, x).contains(y) <==> s.contains(y) || y == x,
        sorted_desc(d, insert_desc(d, s, x)),
    decreases s.len(),
{
    let out = insert_desc(d, s, x);
    if s.len() == 0 {
        assert forall|y: usize| #[trigger] out.contains(y) implies s.contains(y) || y == x by {
            let i = choose|i: int| 0 <= i < out.len() && out[i] == y;
        }
        assert(out.contains(x)) by {
            assert(out[0] == x);
        }
    } else if sorts_before(d, x as int, s[0] as int) {
        assert forall|y: usize| #[trigger] out.contains(y) implies s.contains(y) || y == x by {
            let i = choose|i: int| 0 <= i < out.len() && out[i] == y;
            if i > 0 {
                assert(s[i - 1] == y);
            }
        }
        assert forall|y: usize| s.contains(y) || y == x implies #[trigger] out.contains(y) by {
            if y == x {
                assert(out[0] == y);
            } else {
                let i = choose|i: int| 0 <= i < s.len() && s[i] == y;
                assert(out[i + 1] == y);
            }
        }
        assert forall|i: int, j: int| 0 <= i < j < out.len() implies sorts_before(
            d,
            #[trigger] out[i] as int,
            #[trigger] out[j] as int,
        ) by {
            if i == 0 {
                assert(out[0] == x);
                assert(out[j] == s[j - 1]);
                if j > 1 {
                    assert(sorts_before(d, s[0] as int, s[j - 1] as int));
                }
            } else {
                assert(out[i] == s[i - 1] && out[j] == s[j - 1]);
            }
        }
    } else {
        let rest = s.subrange(1, s.len() as int);
        assert forall|j: int| 0 <= j < rest.len() implies #[trigger] rest[j] != x by {
            assert(rest[j] == s[j + 1]);
        }
        assert forall|i: int, j: int| 0 <= i < j < rest.len() implies sorts_before(
            d,
            #[trigger] rest[i] as int,
            #[trigger] rest[j] as int,
        ) by {
            assert(rest[i] == s[i + 1] && rest[j] == s[j + 1]);
        }
        lemma_insert_facts(d, rest, x);
        let inner = insert_desc(d, rest, x);
        assert(out == seq![s[0]] + inner);
        assert forall|y: usize| #[trigger] out.contains(y) implies s.contains(y) || y == x by {
            let i = choose|i: int| 0 <= i < out.len() && out[i] == y;
            if i == 0 {
                assert(s[0] == y);
            } else {
                assert(inner[i - 1] == y);
                assert(inner.contains(y));
                if rest.contains(y) {
                    let j = choose|j: int| 0 <= j < rest.len() && rest[j] == y;
                    assert(s[j + 1] == y);
                }
            }
        }
        assert forall|y: usize| s.contains(y) || y == x implies #[trigger] out.contains(y) by {
            if y == x {
                assert(inner.contains(y));
                let i = choose|i: int| 0 <= i < inner.len() && inner[i] == y;
                assert(out[i + 1] == y);
            } else {
                let i = choose|i: int| 0 <= i < s.len() && s[i] == y;
                if i == 0 {
                    assert(out[0] == y);
                } else {
                    assert(rest[i - 1] == y);
                    assert(rest.contains(y));
                    assert(inner.contains(y));
                    let j = choose|j: int| 0 <= j < inner.len() && inner[j] == y;
                    assert(out[j + 1] == y);
                }
            }
        }
        // The head sorts before the inserted id, by totality on distinct ids.
        assert(s[0] != x);
        assert(sorts_before(d, s[0] as int, x as int));
        assert forall|i: int, j: int| 0 <= i < j < out.len() implies sorts_before(
            d,
            #[trigger] out[i] as int,
            #[trigger] out[j] as int,
        ) by {
            if i == 0 {
                assert(out[j] == inner[j - 1]);
                assert(inner.contains(inner[j - 1]));
                let y = inner[j - 1];
                if rest.contains(y) {
                    let q = choose|q: int| 0 <= q < rest.len() && rest[q] == y;
                    assert(s[q + 1] == y);
                    assert(sorts_before(d, s[0] as int, y as int));
                }
            } else {
                assert(out[i] == inner[i - 1] && out[j] == inner[j - 1]);
            }
        }
    }
}

proof fn lemma_sort_upto_facts(d: Seq<i64>, k: int)
    requires
        0 <= k <= d.len(),
        k <= usize::MAX,
    ensures
        sort_desc_upto(d, k).len() == k,
        forall|y: usize| #[trigger] sort_desc_upto(d, k).contains(y) <==> y < k,
        sorted_desc(d, sort_desc_upto(d, k)),
    decreases k,
{
    if k > 0 {
        lemma_sort_upto_facts(d, k - 1);
        let prev = sort_desc_upto(d, k - 1);
        assert forall|j: int| 0 <= j < prev.len() implies #[trigger] prev[j] != (k - 1) as usize by {
            assert(prev.contains(prev[j]));
        }
        lemma_insert_facts(d, prev, (k - 1) as usize);
    }
}

/// The descending schedule is a permutation of the ids `0..len`, strictly
/// ordered by descending value with ascending id tie-break.
pub proof fn lemma_sort_desc_facts(d: Seq<i64>)
    requires
        d.len() <= usize::MAX,
    ensures
        sort_desc(d).len() == d.len(),
        forall|y: usize| #[trigger] sort_desc(d).contains(y) <==> y < d.len(),
        sorted_desc(d, sort_desc(d)),
{
    lemma_sort_upto_facts(d, d.len() as int);
}

proof fn lemma_insert_at_position(d: Seq<i64>, s: Seq<usize>, x: usize, p: int)
    requires
        0 <= p <= s.len(),
        forall|j: int| 0 <= j < p ==> !sorts_before(d, x as int, #[trigger] s[j] as int),
        p < s.len() ==> sorts_before(d, x as int, s[p] as int),
    ensures
        insert_desc(d, s, x) == s.insert(p, x),
    decreases s.len(),
{
    if s.len() == 0 {
        assert(insert_desc(d, s, x) =~= s.insert(0, x));
    } else if sorts_before(d, x as int, s[0] as int) {
        assert(p == 0);
        assert(insert_desc(d, s, x) =~= s.insert(0, x));
    } else {
        let rest = s.subrange(1, s.len() as int);
        assert(p >= 1);
        assert forall|j: int| 0 <= j < p - 1 implies !sorts_before(
            d,
            x as int,
            #[trigger] rest[j] as int,
        ) by {
            assert(rest[j] == s[j + 1]);
        }
        assert(p - 1 < rest.len() ==> sorts_before(d, x as int, rest[p - 1] as int));
        lemma_insert_at_position(d, rest, x, p - 1);
        assert(insert_desc(d, s, x) =~= s.insert(p, x));
    }
}

impl VertexData<i64> {
    /// The vertex ids ordered by descending value, ties broken by ascending
    /// id: the flow-accumulation schedule.
    pub fn ordered_by(&self) -> (r: Vec<VertexId>)
        ensures
            vids(r@) == sort_desc(self.data@),
    {
        let n = self.data.len();
        let mut out: Vec<VertexId> = Vec::new();
        let mut v: usize = 0;
        while v < n
            invariant
                v <= n,
                n == self.data@.len(),
                vids(out@) == sort_desc_upto(self.data@, v as int),
                out@.len() == v,
                forall|j: int| 0 <= j < out@.len() ==> #[trigger] out@[j].0 < v,
            decreases n - v,
        {
            let ghost d = self.data@;
            let mut p: usize = 0;
            let mut found: bool = false;
            let out_len = out.len();
            while !found && p < out_len
                invariant
                    p <= out@.len(),
                    out_len == out@.len(),
                    n == self.data@.len(),
                    d == self.data@,
                    forall|j: int| 0 <= j < out@.len() ==> #[trigger] out@[j].0 < v,
                    v < n,
                    forall|j: int|
                        0 <= j < p ==> !sorts_before(d, v as int, #[trigger] out@[j].0 as int),
                    found ==> p < out@.len() && sorts_before(d, v as int, out@[p as int].0 as int),
                decreases out@.len() - p + if found {
                    0int
                } else {
                    1int
                },
            {
                let w = out[p].0;
                let dv = self.data[v];
                let dw = self.data[w];
                if dv > dw || (dv == dw && v < w) {
                    found = true;
                } else {
                    proof {
                        assert(!sorts_before(d, v as int, out@[p as int].0 as int));
                    }
                    p = p + 1;
                }
            }
            proof {
                assert(p < out@.len() ==> sorts_before(d, v as int, out@[p as int].0 as int));
            }
            let ghost out_pre = out@;
            out.insert(p, VertexId(v));
            proof {
                assert(vids(out@) =~= vids(out_pre).insert(p as int, v));
                lemma_insert_at_position(d, vids(out_pre), v, p as int);
                assert(vids(out@) =~= sort_desc_upto(d, (v + 1) as int));
            }
            v = v + 1;
        }
        out
    }
}

impl VertexData<i64> {
    /// The largest value held; the container must not be empty.
    pub fn max(&self) -> (r: i64)
        requires
            self.data@.len() > 0,
        ensures
            exists|i: int| 0 <= i < self.data@.len() && self.data@[i] == r,
            forall|i: int| 0 <= i < self.data@.len() ==> #[trigger] self.data@[i] <= r,
    {
        let n = self.data.len();
        let mut best: i64 = self.data[0];
        let mut i: usize = 1;
        while i < n
            invariant
                1 <= i <= n,
                n == self.data@.len(),
                exists|j: int| 0 <= j < i && self.data@[j] == best,
                forall|j: int| 0 <= j < i ==> #[trigger] self.data@[j] <= best,
            decreases n - i,
        {
            if self.data[i] > best {
                best = self.data[i];
            }
            i = i + 1;
        }
        best
    }

    /// The smallest value held; the container must not be empty.
    pub fn min(&self) -> (r: i64)
        requires
            self.data@.len() > 0,
        ensures
            exists|i: int| 0 <= i < self.data@.len() && self.data@[i] == r,
            forall|i: int| 0 <= i < self.data@.len() ==> #[trigger] self.data@[i] >= r,
    {
        let n = self.data.len();
        let mut best: i64 = self.data[0];
        let mut i: usize = 1;
        while i < n
            invariant
                1 <= i <= n,
                n == self.data@.len(),
                exists|j: int| 0 <= j < i && self.data@[j] == best,
                forall|j: int| 0 <= j < i ==> #[trigger] self.data@[j] >= best,
            decreases n - i,
        {
            if self.data[i] < best {
                best = self.data[i];
            }
            i = i + 1;
        }
        best
    }
}

/// Sum of a vertex field over the first `k` corners of cell `c`.
pub open spec fn corner_sum(mesh: PolyMap, d: Seq<i64>, c: int, k: int) -> int
    decreases k,
{
    if k <= 0 {
        0
    } else {
        corner_sum(mesh, d, c, k - 1) + d[mesh.cells@[c].corners@[k - 1].0 as int]
    }
}

/// Sum of a vertex field over the first `k` neighbors of vertex `v`.
pub open spec fn neighbor_sum(mesh: PolyMap, d: Seq<i64>, v: int, k: int) -> int
    decreases k,
{
    if k <= 0 {
        0
    } else {
        neighbor_sum(mesh, d, v, k - 1) + d[mesh.vertices@[v].neighbors@[k - 1].0 as int]
    }
}

proof fn lemma_corner_sum_bounds(mesh: PolyMap, d: Seq<i64>, c: int, k: int, bound: int)
    requires
        mesh.wf(),
        0 <= c < mesh.nc(),
        0 <= k <= mesh.cells@[c].corners@.len(),
        d.len() == mesh.nv(),
        bound >= 0,
        forall|v: int| 0 <= v < d.len() ==> 0 <= #[trigger] d[v] <= bound,
    ensures
        0 <= corner_sum(mesh, d, c, k) <= k * bound,
    decreases k,
{
    if k > 0 {
        lemma_corner_sum_bounds(mesh, d, c, k - 1, bound);
        assert(mesh.wf_cell(c));
        assert((k - 1) * bound + bound == k * bound) by (nonlinear_arith);
    }
}

proof fn lemma_neighbor_sum_bounds(mesh: PolyMap, d: Seq<i64>, v: int, k: int, bound: int)
    requires
        mesh.wf(),
        0 <= v < mesh.nv(),
        0 <= k <= mesh.vertices@[v].neighbors@.len(),
        d.len() == mesh.nv(),
        bound >= 0,
        forall|w: int| 0 <= w < d.len() ==> 0 <= #[trigger] d[w] <= bound,
        forall|j: int|
            0 <= j < mesh.vertices@[v].neighbors@.len()
                ==> #[trigger] mesh.vertices@[v].neighbors@[j].0 < mesh.nv(),
    ensures
        0 <= neighbor_sum(mesh, d, v, k) <= k * bound,
    decreases k,
{
    if k > 0 {
        lemma_neighbor_sum_bounds(mesh, d, v, k - 1, bound);
        assert((k - 1) * bound + bound == k * bound) by (nonlinear_arith);
    }
}

impl CellData<i64> {
    /// Per-cell arithmetic mean of the values at the cell's corners; every
    /// well-formed cell has at least one corner, so the mean is defined.
    pub fn vertex_average(mesh: &PolyMap, corners: &VertexData<i64>) -> (r: CellData<i64>)
        requires
            mesh.wf(),
            corners.data@.len() == mesh.nv(),
            forall|v: int|
                0 <= v < corners.data@.len() ==> 0 <= #[trigger] corners.data@[v]
                    <= FLOW_OUTPUT_LIMIT,
        ensures
            r.data@.len() == mesh.nc(),
            forall|c: int|
                0 <= c < r.data@.len() ==> r.data@[c] == corner_sum(
                    *mesh,
                    corners.data@,
                    c,
                    mesh.cells@[c].corners@.len() as int,
                ) / (mesh.cells@[c].corners@.len() as int),
            forall|c: int| 0 <= c < r.data@.len() ==> 0 <= #[trigger] r.data@[c] <= FLOW_OUTPUT_LIMIT,
    {
        let nc = mesh.num_cells();
        let mut data: Vec<i64> = Vec::new();
        let mut c: usize = 0;
        while c < nc
            invariant
                c <= nc,
                nc == mesh.nc(),
                mesh.wf(),
                corners.data@.len() == mesh.nv(),
                forall|v: int|
                    0 <= v < corners.data@.len() ==> 0 <= #[trigger] corners.data@[v]
                        <= FLOW_OUTPUT_LIMIT,
                data@.len() == c,
                forall|cc: int|
                    0 <= cc < c ==> data@[cc] == corner_sum(
                        *mesh,
                        corners.data@,
                        cc,
                        mesh.cells@[cc].corners@.len() as int,
                    ) / (mesh.cells@[cc].corners@.len() as int),
                forall|cc: int| 0 <= cc < c ==> 0 <= #[trigger] data@[cc] <= FLOW_OUTPUT_LIMIT,
            decreases nc - c,
        {
            proof {
                assert(mesh.wf_cell(c as int));
            }
            let cl = mesh.cell(CellId(c));
            let nk = cl.corners.len();
            let mut sum: i64 = 0;
            let mut k: usize = 0;
            while k < nk
                invariant
                    k <= nk,
                    c < nc,
                    nc == mesh.nc(),
                    mesh.wf(),
                    cl == mesh.cells@[c as int],
                    nk == cl.corners@.len(),
                    corners.data@.len() == mesh.nv(),
                    forall|v: int|
                        0 <= v < corners.data@.len() ==> 0 <= #[trigger] corners.data@[v]
                            <= FLOW_OUTPUT_LIMIT,
                    sum == corner_sum(*mesh, corners.data@, c as int, k as int),
                    0 <= sum <= k * (FLOW_OUTPUT_LIMIT as int),
                decreases nk - k,
            {
                proof {
                    assert(mesh.wf_cell(c as int));
                    lemma_corner_sum_bounds(
                        *mesh,
                        corners.data@,
                        c as int,
                        (k + 1) as int,
                        FLOW_OUTPUT_LIMIT as int,
                    );
                }
                let vid = cl.corners[k].0;
                sum = sum + corners.data[vid];
                k = k + 1;
            }
            proof {
                assert(nk * (FLOW_OUTPUT_LIMIT as int) <= 0xFFFF * (FLOW_OUTPUT_LIMIT as int))
                    by (nonlinear_arith)
                    requires
                        nk <= 0xFFFF,
                ;
            }
            let avg: i64 = sum / (nk as i64);
            proof {
                assert(0 <= (sum as int) / (nk as int) <= FLOW_OUTPUT_LIMIT as int)
                    by (nonlinear_arith)
                    requires
                        nk >= 1,
                        0 <= sum as int <= (nk as int) * (FLOW_OUTPUT_LIMIT as int),
                ;
                assert(avg == (sum as int) / (nk as int));
            }
            data.push(avg);
            c = c + 1;
        }
        CellData { data }
    }
}

impl VertexData<i64> {
    /// One synchronous relaxation sweep: each vertex moves a fifth of the
    /// way towards the mean of a snapshot of its neighbors' values; a
    /// vertex with no neighbors keeps its value.
    pub fn update_with_neighbors(&mut self, mesh: &PolyMap)
        requires
            mesh.wf(),
            old(self).data@.len() == mesh.nv(),
            forall|v: int|
                0 <= v < old(self).data@.len() ==> 0 <= #[trigger] old(self).data@[v]
                    <= crate::SCALE,
            forall|v: int|
                0 <= v < mesh.nv() ==> mesh.vertices@[v].neighbors@.len() <= 0xFFFF,
        ensures
            final(self).data@.len() == old(self).data@.len(),
            forall|v: int|
                0 <= v < final(self).data@.len() ==> final(self).data@[v] == relaxed_value(
                    *mesh,
                    old(self).data@,
                    v,
                ),
            forall|v: int|
                0 <= v < final(self).data@.len() ==> 0 <= #[trigger] final(self).data@[v]
                    <= crate::SCALE,
    {
        let ghost snap = self.data@;
        let n = self.data.len();
        let mut data: Vec<i64> = Vec::new();
        let mut v: usize = 0;
        while v < n
            invariant
                v <= n,
                n == snap.len(),
                snap == self.data@,
                n == mesh.nv(),
                mesh.wf(),
                forall|w: int| 0 <= w < snap.len() ==> 0 <= #[trigger] snap[w] <= crate::SCALE,
                forall|w: int| 0 <= w < mesh.nv() ==> mesh.vertices@[w].neighbors@.len() <= 0xFFFF,
                data@.len() == v,
                forall|w: int| 0 <= w < v ==> data@[w] == relaxed_value(*mesh, snap, w),
                forall|w: int| 0 <= w < v ==> 0 <= #[trigger] data@[w] <= crate::SCALE,
            decreases n - v,
        {
            proof {
                assert(mesh.wf_vertex(v as int));
            }
            let vt = mesh.vertex(VertexId(v));
            let nk = vt.neighbors.len();
            let cur: i64 = self.data[v];
            let value: i64 = if nk == 0 {
                cur
            } else {
                let mut sum: i64 = 0;
                let mut k: usize = 0;
                while k < nk
                    invariant
                        k <= nk,
                        v < n,
                        n == snap.len(),
                        snap == self.data@,
                        n == mesh.nv(),
                        mesh.wf(),
                        vt == mesh.vertices@[v as int],
                        nk == vt.neighbors@.len(),
                        nk <= 0xFFFF,
                        forall|w: int|
                            0 <= w < snap.len() ==> 0 <= #[trigger] snap[w] <= crate::SCALE,
                        sum == neighbor_sum(*mesh, snap, v as int, k as int),
                        0 <= sum <= k * (crate::SCALE as int),
                    decreases nk - k,
                {
                    proof {
                        assert(mesh.wf_vertex(v as int));
                        mesh.lemma_vertex_neighbors_in_range(v as int);
                        lemma_neighbor_sum_bounds(
                            *mesh,
                            snap,
                            v as int,
                            (k + 1) as int,
                            crate::SCALE as int,
                        );
                    }
                    let wid = vt.neighbors[k].0;
                    sum = sum + self.data[wid];
                    k = k + 1;
                }
                proof {
                    assert(nk * (crate::SCALE as int) <= 0xFFFF * (crate::SCALE as int))
                        by (nonlinear_arith)
                        requires
                            nk <= 0xFFFF,
                    ;
                    assert(0 <= (sum as int) / (nk as int) <= crate::SCALE as int)
                        by (nonlinear_arith)
                        requires
                            nk >= 1,
                            0 <= sum as int <= (nk as int) * (crate::SCALE as int),
                    ;
                }
                let avg: i64 = sum / (nk as i64);
                proof {
                    assert(0 <= 2 * (avg as int) + 8 * (cur as int) <= 10 * (crate::SCALE as int));
                    assert(0 <= (2 * (avg as int) + 8 * (cur as int)) / 10 <= crate::SCALE as int);
                }
                (2 * avg + 8 * cur) / 10
            };
            data.push(value);
            v = v + 1;
        }
        self.data = data;
    }
}

/// The relaxation formula: a fifth of the neighborhood mean plus four
/// fifths of the vertex's own value.
pub open spec fn relaxed_value(mesh: PolyMap, d: Seq<i64>, v: int) -> i64 {
    let nk = mesh.vertices@[v].neighbors@.len() as int;
    if nk == 0 {
        d[v]
    } else {
        let avg = neighbor_sum(mesh, d, v, nk) / nk;
        ((2 * avg + 8 * d[v]) / 10) as i64
    }
}

impl<T> VertexData<T> {
    /// A container built by evaluating `f` at every vertex of the mesh.
    pub fn for_each<F: Fn(VertexId, &crate::mesh::Vertex) -> T>(mesh: &PolyMap, f: F) -> (r: Self)
        requires
            forall|i: usize|
                i < mesh.nv() ==> #[trigger] f.requires((VertexId(i), &mesh.vertices@[i as int])),
        ensures
            r.data@.len() == mesh.nv(),
            forall|i: usize|
                i < r.data@.len() ==> f.ensures(
                    (VertexId(i), &mesh.vertices@[i as int]),
                    #[trigger] r.data@[i as int],
                ),
    {
        let n = mesh.num_vertices();
        let mut out: Vec<T> = Vec::new();
        let mut i: usize = 0;
        while i < n
            invariant
                i <= n,
                n == mesh.nv(),
                forall|j: usize|
                    j < n ==> #[trigger] f.requires((VertexId(j), &mesh.vertices@[j as int])),
                out@.len() == i,
                forall|j: usize|
                    j < i ==> f.ensures(
                        (VertexId(j), &mesh.vertices@[j as int]),
                        #[trigger] out@[j as int],
                    ),
            decreases n - i,
        {
            proof {
                assert(f.requires((VertexId(i), &mesh.vertices@[i as int])));
            }
            let value = f(VertexId(i), mesh.vertex(VertexId(i)));
            out.push(value);
            i = i + 1;
        }
        VertexData { data: out }
    }

    /// Replaces every entry by evaluating `f` over the vertex and the old
    /// value.
    pub fn update_each<F: Fn(VertexId, &crate::mesh::Vertex, &T) -> T>(
        &mut self,
        mesh: &PolyMap,
        f: F,
    )
        requires
            old(self).data@.len() == mesh.nv(),
            forall|i: usize|
                i < mesh.nv() ==> #[trigger] f.requires(
                    (VertexId(i), &mesh.vertices@[i as int], &old(self).data@[i as int]),
                ),
        ensures
            final(self).data@.len() == old(self).data@.len(),
            forall|i: usize|
                i < final(self).data@.len() ==> f.ensures(
                    (VertexId(i), &mesh.vertices@[i as int], &old(self).data@[i as int]),
                    #[trigger] final(self).data@[i as int],
                ),
    {
        let ghost d0 = self.data@;
        let n = self.data.len();
        let mut out: Vec<T> = Vec::new();
        let mut i: usize = 0;
        while i < n
            invariant
                i <= n,
                n == d0.len(),
                d0 == self.data@,
                n == mesh.nv(),
                forall|j: usize|
                    j < n ==> #[trigger] f.requires(
                        (VertexId(j), &mesh.vertices@[j as int], &d0[j as int]),
                    ),
                out@.len() == i,
                forall|j: usize|
                    j < i ==> f.ensures(
                        (VertexId(j), &mesh.vertices@[j as int], &d0[j as int]),
                        #[trigger] out@[j as int],
                    ),
            decreases n - i,
        {
            proof {
                assert(f.requires((VertexId(i), &mesh.vertices@[i as int], &d0[i as int])));
            }
            let value = f(VertexId(i), mesh.vertex(VertexId(i)), &self.data[i]);
            out.push(value);
            i = i + 1;
        }
        self.data = out;
    }
}

impl<T> EdgeData<T> {
    /// A container built by evaluating `f` at every edge of the mesh.
    pub fn for_each<F: Fn(crate::mesh::EdgeId, &crate::mesh::Edge) -> T>(
        mesh: &PolyMap,
        f: F,
    ) -> (r: Self)
        requires
            forall|i: usize|
                i < mesh.ne() ==> #[trigger] f.requires(
                    (crate::mesh::EdgeId(i), &mesh.edges@[i as int]),
                ),
        ensures
            r.data@.len() == mesh.ne(),
            forall|i: usize|
                i < r.data@.len() ==> f.ensures(
                    (crate::mesh::EdgeId(i), &mesh.edges@[i as int]),
                    #[trigger] r.data@[i as int],
                ),
    {
        let n = mesh.num_edges();
        let mut out: Vec<T> = Vec::new();
        let mut i: usize = 0;
        while i < n
            invariant
                i <= n,
                n == mesh.ne(),
                forall|j: usize|
                    j < n ==> #[trigger] f.requires(
                        (crate::mesh::EdgeId(j), &mesh.edges@[j as int]),
                    ),
                out@.len() == i,
                forall|j: usize|
                    j < i ==> f.ensures(
                        (crate::mesh::EdgeId(j), &mesh.edges@[j as int]),
                        #[trigger] out@[j as int],
                    ),
            decreases n - i,
        {
            proof {
                assert(f.requires((crate::mesh::EdgeId(i), &mesh.edges@[i as int])));
            }
            let value = f(crate::mesh::EdgeId(i), mesh.edge(crate::mesh::EdgeId(i)));
            out.push(value);
            i = i + 1;
        }
        EdgeData { data: out }
    }
}

impl<T> CellData<T> {
    /// A container built by evaluating `f` at every cell of the mesh.
    pub fn for_each<F: Fn(CellId, &crate::mesh::Cell) -> T>(mesh: &PolyMap, f: F) -> (r: Self)
        requires
            forall|i: usize|
                i < mesh.nc() ==> #[trigger] f.requires((CellId(i), &mesh.cells@[i as int])),
        ensures
            r.data@.len() == mesh.nc(),
            forall|i: usize|
                i < r.data@.len() ==> f.ensures(
                    (CellId(i), &mesh.cells@[i as int]),
                    #[trigger] r.data@[i as int],
                ),
    {
        let n = mesh.num_cells();
        let mut out: Vec<T> = Vec::new();
        let mut i: usize = 0;
        while i < n
            invariant
                i <= n,
                n == mesh.nc(),
                forall|j: usize|
                    j < n ==> #[trigger] f.requires((CellId(j), &mesh.cells@[j as int])),
                out@.len() == i,
                forall|j: usize|
                    j < i ==> f.ensures(
                        (CellId(j), &mesh.cells@[j as int]),
                        #[trigger] out@[j as int],
                    ),
            decreases n - i,
        {
            proof {
                assert(f.requires((CellId(i), &mesh.cells@[i as int])));
            }
            let value = f(CellId(i), mesh.cell(CellId(i)));
            out.push(value);
            i = i + 1;
        }
        CellData { data: out }
    }
}

impl<T> CellData<T> {
    /// A new container with `f` applied to every entry.
    pub fn transform<U, F: Fn(CellId, &T) -> U>(&self, f: F) -> (r: CellData<U>)
        requires
            forall|i: usize|
                i < self.data@.len() ==> #[trigger] f.requires((CellId(i), &self.data@[i as int])),
        ensures
            r.data@.len() == self.data@.len(),
            forall|i: usize|
                i < r.data@.len() ==> f.ensures(
                    (CellId(i), &self.data@[i as int]),
                    #[trigger] r.data@[i as int],
                ),
    {
        let n = self.data.len();
        let mut out: Vec<U> = Vec::new();
        let mut i: usize = 0;
        while i < n
            invariant
                i <= n,
                n == self.data@.len(),
                forall|j: usize|
                    j < n ==> #[trigger] f.requires((CellId(j), &self.data@[j as int])),
                out@.len() == i,
                forall|j: usize|
                    j < i ==> f.ensures((CellId(j), &self.data@[j as int]), #[trigger] out@[j as int]),
            decreases n - i,
        {
            proof {
                assert(f.requires((CellId(i), &self.data@[i as int])));
            }
            let value = f(CellId(i), &self.data[i]);
            out.push(value);
            i = i + 1;
        }
        CellData { data: out }
    }
}

/// Picks a mesh vertex from the generator; the draw is pinned down by the
/// generator's own contract.
pub struct VertexPicker;

impl VertexPicker {
    pub fn random(mesh: &PolyMap, rng: &mut Rng) -> (r: VertexId)
        requires
            mesh.nv() > 0,
        ensures
            r.0 < mesh.nv(),
            r.0 == crate::rng::spec_step(old(rng)@) % (mesh.nv() as u64),
            final(rng)@ == crate::rng::spec_step(old(rng)@),
    {
        let n = mesh.num_vertices();
        let x = rng.next_below(n as u64);
        VertexId(x as usize)
    }
}

} // verus!
