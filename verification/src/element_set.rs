//! Selection sets over mesh entities: cells together with their bounding
//! edges and corners, kept without duplicates.

use vstd::prelude::*;

use crate::mesh::contains_cell;
use crate::mesh::contains_edge_id;
use crate::mesh::CellId;
use crate::mesh::EdgeId;
use crate::mesh::PolyMap;
use crate::mesh::VertexId;

verus! {

fn contains_vertex(v: &Vec<VertexId>, x: usize) -> (r: bool)
    ensures
        r == exists|j: int| 0 <= j < v@.len() && #[trigger] v@[j].0 == x,
{
    let n = v.len();
    let mut i: usize = 0;
    while i < n
        invariant
            i <= n,
            n == v@.len(),
            forall|j: int| 0 <= j < i ==> #[trigger] v@[j].0 != x,
        decreases n - i,
    {
        if v[i].0 == x {
            return true;
        }
        i = i + 1;
    }
    false
}

proof fn lemma_same_cells(a: ElementSet, b: ElementSet)
    requires
        a.cells@ == b.cells@,
    ensures
        forall|c: int| #![trigger a.has_cell(c)] #![trigger b.has_cell(c)] a.has_cell(c)
            <==> b.has_cell(c),
{
    assert forall|c: int| #[trigger] a.has_cell(c) <==> b.has_cell(c) by {
        if a.has_cell(c) {
            let j = choose|j: int| 0 <= j < a.cells@.len() && #[trigger] a.cells@[j].0 == c;
            assert(b.cells@[j].0 == c);
        }
        if b.has_cell(c) {
            let j = choose|j: int| 0 <= j < b.cells@.len() && #[trigger] b.cells@[j].0 == c;
            assert(a.cells@[j].0 == c);
        }
    }
}

proof fn lemma_same_edges(a: ElementSet, b: ElementSet)
    requires
        a.edges@ == b.edges@,
    ensures
        forall|e: int| #![trigger a.has_edge(e)] #![trigger b.has_edge(e)] a.has_edge(e)
            <==> b.has_edge(e),
{
    assert forall|e: int| #[trigger] a.has_edge(e) <==> b.has_edge(e) by {
        if a.has_edge(e) {
            let j = choose|j: int| 0 <= j < a.edges@.len() && #[trigger] a.edges@[j].0 == e;
            assert(b.edges@[j].0 == e);
        }
        if b.has_edge(e) {
            let j = choose|j: int| 0 <= j < b.edges@.len() && #[trigger] b.edges@[j].0 == e;
            assert(a.edges@[j].0 == e);
        }
    }
}

proof fn lemma_same_corners(a: ElementSet, b: ElementSet)
    requires
        a.corners@ == b.corners@,
    ensures
        forall|v: int| #![trigger a.has_corner(v)] #![trigger b.has_corner(v)] a.has_corner(v)
            <==> b.has_corner(v),
{
    assert forall|v: int| #[trigger] a.has_corner(v) <==> b.has_corner(v) by {
        if a.has_corner(v) {
            let j = choose|j: int| 0 <= j < a.corners@.len() && #[trigger] a.corners@[j].0 == v;
            assert(b.corners@[j].0 == v);
        }
        if b.has_corner(v) {
            let j = choose|j: int| 0 <= j < b.corners@.len() && #[trigger] b.corners@[j].0 == v;
            assert(a.corners@[j].0 == v);
        }
    }
}

/// A set of cells, edges and corners, each kept as a duplicate-free list.
pub struct ElementSet {
    pub cells: Vec<CellId>,
    pub edges: Vec<EdgeId>,
    pub corners: Vec<VertexId>,
}

impl ElementSet {
    pub open spec fn has_cell(self, c: int) -> bool {
        exists|j: int| 0 <= j < self.cells@.len() && #[trigger] self.cells@[j].0 == c
    }

    pub open spec fn has_edge(self, e: int) -> bool {
        exists|j: int| 0 <= j < self.edges@.len() && #[trigger] self.edges@[j].0 == e
    }

    pub open spec fn has_corner(self, v: int) -> bool {
        exists|j: int| 0 <= j < self.corners@.len() && #[trigger] self.corners@[j].0 == v
    }

    pub fn new() -> (r: Self)
        ensures
            r.cells@.len() == 0,
            r.edges@.len() == 0,
            r.corners@.len() == 0,
    {
        ElementSet { cells: Vec::new(), edges: Vec::new(), corners: Vec::new() }
    }

    /// Empties the selection.
    pub fn clear(&mut self)
        ensures
            final(self).cells@.len() == 0,
            final(self).edges@.len() == 0,
            final(self).corners@.len() == 0,
    {
        self.cells = Vec::new();
        self.edges = Vec::new();
        self.corners = Vec::new();
    }

    /// Unions another selection into this one: afterwards an element is
    /// held exactly when either side held it.
    pub fn join(&mut self, other: &ElementSet)
        ensures
            forall|c: int|
                #[trigger] final(self).has_cell(c) <==> old(self).has_cell(c) || other.has_cell(c),
            forall|e: int|
                #[trigger] final(self).has_edge(e) <==> old(self).has_edge(e) || other.has_edge(e),
            forall|v: int|
                #[trigger] final(self).has_corner(v) <==> old(self).has_corner(v)
                    || other.has_corner(v),
    {
        let nc = other.cells.len();
        let mut i: usize = 0;
        while i < nc
            invariant
                i <= nc,
                nc == other.cells@.len(),
                forall|c: int|
                    #[trigger] self.has_cell(c) <==> old(self).has_cell(c) || exists|j: int|
                        0 <= j < i && #[trigger] other.cells@[j].0 == c,
                self.edges@ == old(self).edges@,
                self.corners@ == old(self).corners@,
            decreases nc - i,
        {
            let ghost pre = *self;
            let x = other.cells[i].0;
            if !contains_cell(&self.cells, x) {
                self.cells.push(CellId(x));
            }
            proof {
                assert forall|c: int|
                    #[trigger] self.has_cell(c) <==> (pre.has_cell(c) || c == x) by {
                    if self.has_cell(c) {
                        let j = choose|j: int|
                            0 <= j < self.cells@.len() && #[trigger] self.cells@[j].0 == c;
                        if j < pre.cells@.len() {
                            assert(pre.cells@[j].0 == c);
                        }
                    }
                    if pre.has_cell(c) {
                        let j = choose|j: int|
                            0 <= j < pre.cells@.len() && #[trigger] pre.cells@[j].0 == c;
                        assert(self.cells@[j].0 == c);
                    }
                    if c == x && !pre.has_cell(c) {
                        assert(self.cells@[self.cells@.len() - 1].0 == c);
                    }
                }
                assert forall|c: int| #[trigger] self.has_cell(c) implies (old(self).has_cell(c)
                    || exists|j: int| 0 <= j < i + 1 && #[trigger] other.cells@[j].0 == c) by {
                    if c == x {
                        assert(other.cells@[i as int].0 == c);
                    } else {
                        assert(pre.has_cell(c));
                        if !old(self).has_cell(c) {
                            let j = choose|j: int| 0 <= j < i && #[trigger] other.cells@[j].0 == c;
                            assert(0 <= j < i + 1 && other.cells@[j].0 == c);
                        }
                    }
                }
                assert forall|c: int| (old(self).has_cell(c) || exists|j: int|
                    0 <= j < i + 1 && #[trigger] other.cells@[j].0 == c) implies #[trigger] self.has_cell(c) by {
                    if old(self).has_cell(c) {
                        assert(pre.has_cell(c));
                    } else {
                        let j = choose|j: int| 0 <= j < i + 1 && #[trigger] other.cells@[j].0 == c;
                        if j < i {
                            assert(pre.has_cell(c));
                        } else {
                            assert(c == x);
                        }
                    }
                }
            }
            i = i + 1;
        }
        let ghost cells_done = self.cells@;
        let ne = other.edges.len();
        let mut i2: usize = 0;
        while i2 < ne
            invariant
                i2 <= ne,
                ne == other.edges@.len(),
                self.cells@ == cells_done,
                forall|c: int|
                    #[trigger] self.has_cell(c) <==> old(self).has_cell(c) || other.has_cell(c),
                forall|e: int|
                    #[trigger] self.has_edge(e) <==> old(self).has_edge(e) || exists|j: int|
                        0 <= j < i2 && #[trigger] other.edges@[j].0 == e,
                self.corners@ == old(self).corners@,
            decreases ne - i2,
        {
            let ghost pre = *self;
            let x = other.edges[i2].0;
            if !contains_edge_id(&self.edges, x) {
                self.edges.push(EdgeId(x));
            }
            proof {
                lemma_same_cells(*self, pre);
                lemma_same_corners(*self, pre);
                assert forall|e: int|
                    #[trigger] self.has_edge(e) <==> (pre.has_edge(e) || e == x) by {
                    if self.has_edge(e) {
                        let j = choose|j: int|
                            0 <= j < self.edges@.len() && #[trigger] self.edges@[j].0 == e;
                        if j < pre.edges@.len() {
                            assert(pre.edges@[j].0 == e);
                        }
                    }
                    if pre.has_edge(e) {
                        let j = choose|j: int|
                            0 <= j < pre.edges@.len() && #[trigger] pre.edges@[j].0 == e;
                        assert(self.edges@[j].0 == e);
                    }
                    if e == x && !pre.has_edge(e) {
                        assert(self.edges@[self.edges@.len() - 1].0 == e);
                    }
                }
                assert forall|c: int| #[trigger] self.has_edge(c) implies (old(self).has_edge(c)
                    || exists|j: int| 0 <= j < i2 + 1 && #[trigger] other.edges@[j].0 == c) by {
                    if c == x {
                        assert(other.edges@[i2 as int].0 == c);
                    } else {
                        assert(pre.has_edge(c));
                        if !old(self).has_edge(c) {
                            let j = choose|j: int| 0 <= j < i2 && #[trigger] other.edges@[j].0 == c;
                            assert(0 <= j < i2 + 1 && other.edges@[j].0 == c);
                        }
                    }
                }
                assert forall|c: int| (old(self).has_edge(c) || exists|j: int|
                    0 <= j < i2 + 1 && #[trigger] other.edges@[j].0 == c) implies #[trigger] self.has_edge(c) by {
                    if old(self).has_edge(c) {
                        assert(pre.has_edge(c));
                    } else {
                        let j = choose|j: int| 0 <= j < i2 + 1 && #[trigger] other.edges@[j].0 == c;
                        if j < i2 {
                            assert(pre.has_edge(c));
                        } else {
                            assert(c == x);
                        }
                    }
                }
            }
            i2 = i2 + 1;
        }
        let ghost edges_done = self.edges@;
        let nv = other.corners.len();
        let mut i3: usize = 0;
        while i3 < nv
            invariant
                i3 <= nv,
                nv == other.corners@.len(),
                self.cells@ == cells_done,
                self.edges@ == edges_done,
                forall|c: int|
                    #[trigger] self.has_cell(c) <==> old(self).has_cell(c) || other.has_cell(c),
                forall|e: int|
                    #[trigger] self.has_edge(e) <==> old(self).has_edge(e) || other.has_edge(e),
                forall|v: int|
                    #[trigger] self.has_corner(v) <==> old(self).has_corner(v) || exists|j: int|
                        0 <= j < i3 && #[trigger] other.corners@[j].0 == v,
            decreases nv - i3,
        {
            let ghost pre = *self;
            let x = other.corners[i3].0;
            if !contains_vertex(&self.corners, x) {
                self.corners.push(VertexId(x));
            }
            proof {
                lemma_same_cells(*self, pre);
                lemma_same_edges(*self, pre);
                assert forall|v: int|
                    #[trigger] self.has_corner(v) <==> (pre.has_corner(v) || v == x) by {
                    if self.has_corner(v) {
                        let j = choose|j: int|
                            0 <= j < self.corners@.len() && #[trigger] self.corners@[j].0 == v;
                        if j < pre.corners@.len() {
                            assert(pre.corners@[j].0 == v);
                        }
                    }
                    if pre.has_corner(v) {
                        let j = choose|j: int|
                            0 <= j < pre.corners@.len() && #[trigger] pre.corners@[j].0 == v;
                        assert(self.corners@[j].0 == v);
                    }
                    if v == x && !pre.has_corner(v) {
                        assert(self.corners@[self.corners@.len() - 1].0 == v);
                    }
                }
                assert forall|c: int| #[trigger] self.has_corner(c) implies (old(self).has_corner(c)
                    || exists|j: int| 0 <= j < i3 + 1 && #[trigger] other.corners@[j].0 == c) by {
                    if c == x {
                        assert(other.corners@[i3 as int].0 == c);
                    } else {
                        assert(pre.has_corner(c));
                        if !old(self).has_corner(c) {
                            let j = choose|j: int| 0 <= j < i3 && #[trigger] other.corners@[j].0 == c;
                            assert(0 <= j < i3 + 1 && other.corners@[j].0 == c);
                        }
                    }
                }
                assert forall|c: int| (old(self).has_corner(c) || exists|j: int|
                    0 <= j < i3 + 1 && #[trigger] other.corners@[j].0 == c) implies #[trigger] self.has_corner(c) by {
                    if old(self).has_corner(c) {
                        assert(pre.has_corner(c));
                    } else {
                        let j = choose|j: int| 0 <= j < i3 + 1 && #[trigger] other.corners@[j].0 == c;
                        if j < i3 {
                            assert(pre.has_corner(c));
                        } else {
                            assert(c == x);
                        }
                    }
                }
            }
            i3 = i3 + 1;
        }
    }

    /// Adds a cell together with its bounding edges and their endpoints,
    /// and nothing else.
    pub fn add_cell(&mut self, cell: CellId, mesh: &PolyMap)
        requires
            mesh.wf(),
            cell.0 < mesh.nc(),
        ensures
            final(self).has_cell(cell.0 as int),
            forall|c: int| #[trigger] old(self).has_cell(c) ==> final(self).has_cell(c),
            forall|e: int| #[trigger] old(self).has_edge(e) ==> final(self).has_edge(e),
            forall|v: int| #[trigger] old(self).has_corner(v) ==> final(self).has_corner(v),
            forall|k: int|
                0 <= k < mesh.cells@[cell.0 as int].edges@.len() ==> final(self).has_edge(
                    #[trigger] mesh.cells@[cell.0 as int].edges@[k].0 as int,
                ) && final(self).has_corner(
                    mesh.edges@[mesh.cells@[cell.0 as int].edges@[k].0 as int].min.0 as int,
                ) && final(self).has_corner(
                    mesh.edges@[mesh.cells@[cell.0 as int].edges@[k].0 as int].max.0 as int,
                ),
            forall|c: int|
                #[trigger] final(self).has_cell(c) ==> old(self).has_cell(c) || c == cell.0 as int,
            forall|e: int|
                #[trigger] final(self).has_edge(e) ==> old(self).has_edge(e) || exists|k: int|
                    0 <= k < mesh.cells@[cell.0 as int].edges@.len()
                        && (#[trigger] mesh.cells@[cell.0 as int].edges@[k]).0 == e,
            forall|v: int|
                #[trigger] final(self).has_corner(v) ==> old(self).has_corner(v) || exists|k: int|
                    0 <= k < mesh.cells@[cell.0 as int].edges@.len() && ((#[trigger] mesh.cells@[cell.0 as int].edges@[k]).0
                        < mesh.ne()) && (mesh.edges@[mesh.cells@[cell.0 as int].edges@[k].0 as int].min.0
                        == v || mesh.edges@[mesh.cells@[cell.0 as int].edges@[k].0 as int].max.0 == v),
    {
        let ghost pre = *self;
        if !contains_cell(&self.cells, cell.0) {
            self.cells.push(cell);
        }
        proof {
            assert(self.has_cell(cell.0 as int)) by {
                if !pre.has_cell(cell.0 as int) {
                    assert(self.cells@[self.cells@.len() - 1].0 == cell.0);
                } else {
                    let j = choose|j: int|
                        0 <= j < pre.cells@.len() && #[trigger] pre.cells@[j].0 == cell.0;
                    assert(self.cells@[j].0 == cell.0);
                }
            }
            assert forall|c: int| pre.has_cell(c) implies self.has_cell(c) by {
                let j = choose|j: int| 0 <= j < pre.cells@.len() && #[trigger] pre.cells@[j].0 == c;
                assert(self.cells@[j].0 == c);
            }
            assert forall|c: int|
                #[trigger] self.has_cell(c) implies pre.has_cell(c) || c == cell.0 as int by {
                let j = choose|j: int| 0 <= j < self.cells@.len() && #[trigger] self.cells@[j].0 == c;
                if j < pre.cells@.len() {
                    assert(pre.cells@[j].0 == c);
                }
            }
        }
        proof {
            assert(mesh.wf_cell(cell.0 as int));
        }
        let ghost cells_done = self.cells@;
        proof {
            assert(self.edges@ == old(self).edges@);
            assert(self.corners@ == old(self).corners@);
        }
        let nk = mesh.cell(cell).edges.len();
        let mut k: usize = 0;
        while k < nk
            invariant
                k <= nk,
                mesh.wf(),
                cell.0 < mesh.nc(),
                nk == mesh.cells@[cell.0 as int].edges@.len(),
                self.cells@ == cells_done,
                forall|c: int| #[trigger] old(self).has_cell(c) ==> self.has_cell(c),
                self.has_cell(cell.0 as int),
                forall|e: int| #[trigger] old(self).has_edge(e) ==> self.has_edge(e),
                forall|v: int| #[trigger] old(self).has_corner(v) ==> self.has_corner(v),
                forall|c: int|
                    #[trigger] self.has_cell(c) ==> old(self).has_cell(c) || c == cell.0 as int,
                forall|e: int|
                    #[trigger] self.has_edge(e) ==> old(self).has_edge(e) || exists|kk: int|
                        0 <= kk < k && (#[trigger] mesh.cells@[cell.0 as int].edges@[kk]).0 == e,
                forall|v: int|
                    #[trigger] self.has_corner(v) ==> old(self).has_corner(v) || exists|kk: int|
                        0 <= kk < k && ((#[trigger] mesh.cells@[cell.0 as int].edges@[kk]).0
                            < mesh.ne()) && (mesh.edges@[mesh.cells@[cell.0 as int].edges@[kk].0 as int].min.0
                            == v || mesh.edges@[mesh.cells@[cell.0 as int].edges@[kk].0 as int].max.0
                            == v),
                forall|kk: int|
                    0 <= kk < k ==> self.has_edge(
                        #[trigger] mesh.cells@[cell.0 as int].edges@[kk].0 as int,
                    ) && self.has_corner(
                        mesh.edges@[mesh.cells@[cell.0 as int].edges@[kk].0 as int].min.0 as int,
                    ) && self.has_corner(
                        mesh.edges@[mesh.cells@[cell.0 as int].edges@[kk].0 as int].max.0 as int,
                    ),
            decreases nk - k,
        {
            proof {
                assert(mesh.wf_cell(cell.0 as int));
            }
            let eid = mesh.cell(cell).edges[k].0;
            proof {
                assert(mesh.wf_edge(eid as int));
            }
            let ghost pre_e = *self;
            if !contains_edge_id(&self.edges, eid) {
                self.edges.push(EdgeId(eid));
            }
            proof {
                lemma_same_cells(*self, pre_e);
                lemma_same_corners(*self, pre_e);
                assert(self.has_edge(eid as int)) by {
                    if !pre_e.has_edge(eid as int) {
                        assert(self.edges@[self.edges@.len() - 1].0 == eid);
                    } else {
                        let j = choose|j: int|
                            0 <= j < pre_e.edges@.len() && #[trigger] pre_e.edges@[j].0 == eid;
                        assert(self.edges@[j].0 == eid);
                    }
                }
                assert forall|e: int| pre_e.has_edge(e) implies self.has_edge(e) by {
                    let j = choose|j: int|
                        0 <= j < pre_e.edges@.len() && #[trigger] pre_e.edges@[j].0 == e;
                    assert(self.edges@[j].0 == e);
                }
                assert forall|e: int|
                    #[trigger] self.has_edge(e) implies pre_e.has_edge(e) || e == eid as int by {
                    let j = choose|j: int|
                        0 <= j < self.edges@.len() && #[trigger] self.edges@[j].0 == e;
                    if j < pre_e.edges@.len() {
                        assert(pre_e.edges@[j].0 == e);
                    }
                }
            }
            let mn = mesh.edge(EdgeId(eid)).min.0;
            let mx = mesh.edge(EdgeId(eid)).max.0;
            let ghost pre_v = *self;
            if !contains_vertex(&self.corners, mn) {
                self.corners.push(VertexId(mn));
            }
            proof {
                lemma_same_cells(*self, pre_v);
                lemma_same_edges(*self, pre_v);
                assert(self.has_corner(mn as int)) by {
                    if !pre_v.has_corner(mn as int) {
                        assert(self.corners@[self.corners@.len() - 1].0 == mn);
                    } else {
                        let j = choose|j: int|
                            0 <= j < pre_v.corners@.len() && #[trigger] pre_v.corners@[j].0 == mn;
                        assert(self.corners@[j].0 == mn);
                    }
                }
                assert forall|v: int| pre_v.has_corner(v) implies self.has_corner(v) by {
                    let j = choose|j: int|
                        0 <= j < pre_v.corners@.len() && #[trigger] pre_v.corners@[j].0 == v;
                    assert(self.corners@[j].0 == v);
                }
                assert forall|v: int|
                    #[trigger] self.has_corner(v) implies pre_v.has_corner(v) || v == mn as int by {
                    let j = choose|j: int|
                        0 <= j < self.corners@.len() && #[trigger] self.corners@[j].0 == v;
                    if j < pre_v.corners@.len() {
                        assert(pre_v.corners@[j].0 == v);
                    }
                }
            }
            let ghost pre_v2 = *self;
            if !contains_vertex(&self.corners, mx) {
                self.corners.push(VertexId(mx));
            }
            proof {
                lemma_same_cells(*self, pre_v2);
                lemma_same_edges(*self, pre_v2);
                assert(self.has_corner(mx as int)) by {
                    if !pre_v2.has_corner(mx as int) {
                        assert(self.corners@[self.corners@.len() - 1].0 == mx);
                    } else {
                        let j = choose|j: int|
                            0 <= j < pre_v2.corners@.len() && #[trigger] pre_v2.corners@[j].0 == mx;
                        assert(self.corners@[j].0 == mx);
                    }
                }
                assert forall|v: int| pre_v2.has_corner(v) implies self.has_corner(v) by {
                    let j = choose|j: int|
                        0 <= j < pre_v2.corners@.len() && #[trigger] pre_v2.corners@[j].0 == v;
                    assert(self.corners@[j].0 == v);
                }
                assert forall|v: int|
                    #[trigger] self.has_corner(v) implies pre_v2.has_corner(v) || v == mx as int by {
                    let j = choose|j: int|
                        0 <= j < self.corners@.len() && #[trigger] self.corners@[j].0 == v;
                    if j < pre_v2.corners@.len() {
                        assert(pre_v2.corners@[j].0 == v);
                    }
                }
            }
            proof {
                // Nothing beyond this cell edge and its endpoints was added
                // in this iteration.
                assert(mesh.cells@[cell.0 as int].edges@[k as int].0 == eid);
                assert forall|e: int|
                    #[trigger] self.has_edge(e) implies old(self).has_edge(e) || exists|kk: int|
                    0 <= kk < k + 1 && (#[trigger] mesh.cells@[cell.0 as int].edges@[kk]).0 == e by {
                    if pre_e.has_edge(e) {
                        if !old(self).has_edge(e) {
                            let kk = choose|kk: int|
                                0 <= kk < k && (#[trigger] mesh.cells@[cell.0 as int].edges@[kk]).0
                                    == e;
                            assert(0 <= kk < k + 1);
                        }
                    } else {
                        assert(e == eid as int);
                        assert((mesh.cells@[cell.0 as int].edges@[k as int]).0 == e);
                    }
                }
                assert forall|v: int|
                    #[trigger] self.has_corner(v) implies old(self).has_corner(v) || exists|kk: int|
                    0 <= kk < k + 1 && ((#[trigger] mesh.cells@[cell.0 as int].edges@[kk]).0
                        < mesh.ne()) && (mesh.edges@[mesh.cells@[cell.0 as int].edges@[kk].0 as int].min.0
                        == v || mesh.edges@[mesh.cells@[cell.0 as int].edges@[kk].0 as int].max.0
                        == v) by {
                    if pre_v.has_corner(v) {
                        if !old(self).has_corner(v) {
                            let kk = choose|kk: int|
                                0 <= kk < k && ((#[trigger] mesh.cells@[cell.0 as int].edges@[kk]).0
                                    < mesh.ne()) && (mesh.edges@[mesh.cells@[cell.0 as int].edges@[kk].0 as int].min.0
                                    == v
                                    || mesh.edges@[mesh.cells@[cell.0 as int].edges@[kk].0 as int].max.0
                                    == v);
                            assert(0 <= kk < k + 1);
                        }
                    } else if pre_v2.has_corner(v) {
                        assert(v == mn as int);
                        assert((mesh.cells@[cell.0 as int].edges@[k as int]).0 < mesh.ne());
                        assert(mesh.edges@[eid as int].min.0 == v);
                    } else {
                        assert(v == mx as int);
                        assert((mesh.cells@[cell.0 as int].edges@[k as int]).0 < mesh.ne());
                        assert(mesh.edges@[eid as int].max.0 == v);
                    }
                }
            }
            k = k + 1;
        }
    }
}

} // verus!
