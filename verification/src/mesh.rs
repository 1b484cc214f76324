//! The polygonal map: a planar subdivision of a bounded rectangle into
//! convex cells with shared vertices and edges.
//!
//! The mesh is assembled from raw cell polygons (one closed point list per
//! cell, as a clipped Voronoi diagram produces them).  Points are matched by
//! exact coordinate equality, so two polygons sharing a geometric corner
//! resolve to the same vertex id.  Identifiers are dense zero-based indices
//! into the cell, vertex and edge arrays and are never reused.
//!
//! `PolyMap::wf` is the structural invariant every downstream stage relies
//! on: indices in range, no two vertices sharing a coordinate, canonical
//! undirected edges each appearing once and owned by one cell (at the map
//! border) or two (everywhere else), and symmetric cell adjacency.
//! `PolyMap::build` assembles exactly the tables `assembled` describes and
//! succeeds precisely when that assembly is well-formed.

use vstd::prelude::*;

verus! {

/// Largest admissible map extent; keeps every point-location cross product
/// comfortably inside `i64`.
pub const COORD_LIMIT: i64 = 0x4000_0000;

/// Largest admissible entity count; keeps every field sum comfortably
/// inside `i64`.
pub const COUNT_LIMIT: usize = 0xFFFF;

#[derive(Clone, Copy, Debug, PartialEq, Eq, Structural)]
pub struct CellId(pub usize);

impl CellId {
    pub fn idx(&self) -> (r: usize)
        ensures
            r == self.0,
    {
        self.0
    }
}

#[derive(Clone, Copy, Debug, PartialEq, Eq, Structural)]
pub struct VertexId(pub usize);

#[derive(Clone, Copy, Debug, PartialEq, Eq, Structural)]
pub struct EdgeId(pub usize);

/// A mesh corner: a coordinate, its incident edges, the vertex across each
/// of those edges, and the cells it bounds.
pub struct Vertex {
    pub x: i64,
    pub y: i64,
    pub edges: Vec<EdgeId>,
    pub neighbors: Vec<VertexId>,
    pub cells: Vec<CellId>,
    pub is_border: bool,
}

impl Vertex {
    pub fn x(&self) -> (r: i64)
        ensures
            r == self.x,
    {
        self.x
    }

    pub fn y(&self) -> (r: i64)
        ensures
            r == self.y,
    {
        self.y
    }

    pub fn is_border(&self) -> (r: bool)
        ensures
            r == self.is_border,
    {
        self.is_border
    }
}

/// An undirected mesh edge in canonical order (`min.0 < max.0`), with the
/// one or two cells that own it.
pub struct Edge {
    pub min: VertexId,
    pub max: VertexId,
    pub cells: Vec<CellId>,
}

impl Edge {
    pub fn start(&self) -> (r: VertexId)
        ensures
            r == self.min,
    {
        self.min
    }

    pub fn end(&self) -> (r: VertexId)
        ensures
            r == self.max,
    {
        self.max
    }
}

/// A convex mesh cell: its boundary corners in winding order, its bounding
/// edges, and the cells it shares an edge with.  The neighbor list is kept
/// in the order the shared edges are discovered during assembly; no
/// particular order is part of the contract.
pub struct Cell {
    pub corners: Vec<VertexId>,
    pub edges: Vec<EdgeId>,
    pub neighbors: Vec<CellId>,
    pub is_border: bool,
}

impl Cell {
    pub fn is_border(&self) -> (r: bool)
        ensures
            r == self.is_border,
    {
        self.is_border
    }
}

/// Mesh construction failure: the polygon soup does not assemble into a
/// well-formed planar subdivision.  Unrecoverable, per the error taxonomy:
/// a malformed mesh would invalidate every downstream computation.
#[derive(Clone, Copy, Debug, PartialEq, Eq, Structural)]
pub enum MeshError {
    Degenerate,
}

pub struct PolyMap {
    pub width: i64,
    pub height: i64,
    pub cells: Vec<Cell>,
    pub vertices: Vec<Vertex>,
    pub edges: Vec<Edge>,
}

impl PolyMap {
    pub open spec fn nc(self) -> int {
        self.cells@.len() as int
    }

    pub open spec fn nv(self) -> int {
        self.vertices@.len() as int
    }

    pub open spec fn ne(self) -> int {
        self.edges@.len() as int
    }

    /// A coordinate lies on the outer rectangle.
    pub open spec fn on_border(self, x: i64, y: i64) -> bool {
        x == 0 || y == 0 || x == self.width || y == self.height
    }

    pub open spec fn wf_vertex(self, v: int) -> bool {
        let vt = self.vertices@[v];
        &&& 0 <= vt.x <= self.width
        &&& 0 <= vt.y <= self.height
        &&& (vt.is_border <==> self.on_border(vt.x, vt.y))
        &&& vt.edges@.len() == vt.neighbors@.len()
        &&& vt.edges@.len() <= COUNT_LIMIT
        &&& forall|k: int|
            0 <= k < vt.edges@.len() ==> #[trigger] vt.edges@[k].0 < self.ne()
                && (self.edges@[vt.edges@[k].0 as int].min.0 == v
                    || self.edges@[vt.edges@[k].0 as int].max.0 == v)
                && vt.neighbors@[k].0 == (if self.edges@[vt.edges@[k].0 as int].min.0 == v {
                    self.edges@[vt.edges@[k].0 as int].max.0
                } else {
                    self.edges@[vt.edges@[k].0 as int].min.0
                })
        &&& forall|k: int| 0 <= k < vt.cells@.len() ==> #[trigger] vt.cells@[k].0 < self.nc()
    }

    pub open spec fn wf_edge(self, e: int) -> bool {
        let ed = self.edges@[e];
        &&& ed.min.0 < ed.max.0 < self.nv()
        &&& 1 <= ed.cells@.len() <= 2
        &&& forall|k: int| 0 <= k < ed.cells@.len() ==> #[trigger] ed.cells@[k].0 < self.nc()
        &&& (ed.cells@.len() == 2 ==> ed.cells@[0].0 != ed.cells@[1].0)
        &&& (ed.cells@.len() == 1 ==> self.vertices@[ed.min.0 as int].is_border
            && self.vertices@[ed.max.0 as int].is_border)
    }

    pub open spec fn wf_cell(self, c: int) -> bool {
        let cl = self.cells@[c];
        &&& 3 <= cl.corners@.len() <= COUNT_LIMIT
        &&& forall|k: int| 0 <= k < cl.corners@.len() ==> #[trigger] cl.corners@[k].0 < self.nv()
        &&& forall|k: int| 0 <= k < cl.edges@.len() ==> #[trigger] cl.edges@[k].0 < self.ne()
        &&& forall|k: int|
            0 <= k < cl.neighbors@.len() ==> #[trigger] cl.neighbors@[k].0 < self.nc()
                && cl.neighbors@[k].0 != c
        &&& forall|k: int, l: int|
            0 <= k < l < cl.neighbors@.len() ==> #[trigger] cl.neighbors@[k].0
                != #[trigger] cl.neighbors@[l].0
        &&& (cl.is_border <==> exists|k: int|
            0 <= k < cl.corners@.len() && self.vertices@[#[trigger] cl.corners@[k].0 as int].is_border)
    }

    /// Cell adjacency derived from shared edges is symmetric.
    pub open spec fn cell_neighbors_contain(self, a: int, b: int) -> bool {
        exists|k: int| 0 <= k < self.cells@[a].neighbors@.len()
            && #[trigger] self.cells@[a].neighbors@[k].0 == b
    }

    pub open spec fn wf_symmetry(self) -> bool {
        forall|a: int, b: int|
            0 <= a < self.nc() && 0 <= b < self.nc() && #[trigger] self.cell_neighbors_contain(a, b)
                ==> self.cell_neighbors_contain(b, a)
    }

    /// No two vertices share a coordinate: polygon corners equal as
    /// points resolve to one shared vertex id.
    pub open spec fn wf_vertex_unique(self) -> bool {
        forall|v1: int, v2: int|
            #![trigger self.vertices@[v1].x, self.vertices@[v2].x]
            0 <= v1 < v2 < self.nv() ==> !(self.vertices@[v1].x == self.vertices@[v2].x
                && self.vertices@[v1].y == self.vertices@[v2].y)
    }

    /// No two edges share an endpoint pair: an unordered vertex pair
    /// appears as at most one edge.
    pub open spec fn wf_edge_unique(self) -> bool {
        forall|e1: int, e2: int|
            #![trigger self.edges@[e1].min, self.edges@[e2].min]
            0 <= e1 < e2 < self.ne() ==> !(self.edges@[e1].min.0 == self.edges@[e2].min.0
                && self.edges@[e1].max.0 == self.edges@[e2].max.0)
    }

    /// `e` is listed among the incident edges of vertex `v`.
    pub open spec fn edge_listed_at(self, v: int, e: int) -> bool {
        exists|j: int|
            0 <= j < self.vertices@[v].edges@.len() && #[trigger] self.vertices@[v].edges@[j].0 == e
    }

    /// Every edge is listed among the incident edges of both endpoints.
    pub open spec fn wf_incidence(self) -> bool {
        forall|e: int|
            0 <= e < self.ne() ==> #[trigger] self.edge_listed_at(self.edges@[e].min.0 as int, e)
                && self.edge_listed_at(self.edges@[e].max.0 as int, e)
    }

    /// An edge owned by two cells makes those cells mutual neighbors.
    pub open spec fn wf_edge_adjacency(self) -> bool {
        forall|e: int|
            0 <= e < self.ne() && #[trigger] self.edges@[e].cells@.len() == 2
                ==> self.cell_neighbors_contain(
                    self.edges@[e].cells@[0].0 as int,
                    self.edges@[e].cells@[1].0 as int,
                ) && self.cell_neighbors_contain(
                    self.edges@[e].cells@[1].0 as int,
                    self.edges@[e].cells@[0].0 as int,
                )
    }

    pub open spec fn wf(self) -> bool {
        &&& 0 < self.width <= COORD_LIMIT
        &&& 0 < self.height <= COORD_LIMIT
        &&& 0 < self.nc() <= COUNT_LIMIT as int
        &&& 0 < self.nv() <= COUNT_LIMIT as int
        &&& self.ne() <= COUNT_LIMIT as int
        &&& forall|v: int| 0 <= v < self.nv() ==> self.wf_vertex(v)
        &&& forall|e: int| 0 <= e < self.ne() ==> self.wf_edge(e)
        &&& forall|c: int| 0 <= c < self.nc() ==> self.wf_cell(c)
        &&& self.wf_symmetry()
        &&& self.wf_edge_adjacency()
        &&& self.wf_incidence()
        &&& self.wf_vertex_unique()
        &&& self.wf_edge_unique()
    }

    pub fn width(&self) -> (r: i64)
        ensures
            r == self.width,
    {
        self.width
    }

    pub fn height(&self) -> (r: i64)
        ensures
            r == self.height,
    {
        self.height
    }

    pub fn num_cells(&self) -> (r: usize)
        ensures
            r == self.nc(),
    {
        self.cells.len()
    }

    pub fn num_vertices(&self) -> (r: usize)
        ensures
            r == self.nv(),
    {
        self.vertices.len()
    }

    pub fn num_edges(&self) -> (r: usize)
        ensures
            r == self.ne(),
    {
        self.edges.len()
    }

    pub fn cell(&self, id: CellId) -> (r: &Cell)
        requires
            id.0 < self.nc(),
        ensures
            r == self.cells@[id.0 as int],
    {
        &self.cells[id.0]
    }

    pub fn vertex(&self, id: VertexId) -> (r: &Vertex)
        requires
            id.0 < self.nv(),
        ensures
            r == self.vertices@[id.0 as int],
    {
        &self.vertices[id.0]
    }

    pub fn edge(&self, id: EdgeId) -> (r: &Edge)
        requires
            id.0 < self.ne(),
        ensures
            r == self.edges@[id.0 as int],
    {
        &self.edges[id.0]
    }

    /// The ids of the border cells, in strictly ascending order.
    pub fn borders(&self) -> (r: Vec<CellId>)
        ensures
            forall|i: int| 0 <= i < r@.len() ==> #[trigger] r@[i].0 < self.nc()
                && self.cells@[r@[i].0 as int].is_border,
            forall|c: int|
                0 <= c < self.nc() && self.cells@[c].is_border ==> exists|i: int|
                    0 <= i < r@.len() && #[trigger] r@[i].0 == c,
            forall|i: int, j: int| 0 <= i < j < r@.len() ==> (#[trigger] r@[i]).0 < (#[trigger] r@[j]).0,
    {
        let mut out: Vec<CellId> = Vec::new();
        let n = self.cells.len();
        let mut i: usize = 0;
        while i < n
            invariant
                i <= n,
                n == self.nc(),
                forall|j: int| 0 <= j < out@.len() ==> #[trigger] out@[j].0 < self.nc()
                    && self.cells@[out@[j].0 as int].is_border,
                forall|j: int| 0 <= j < out@.len() ==> #[trigger] out@[j].0 < i,
                forall|c: int|
                    0 <= c < i && self.cells@[c].is_border ==> exists|j: int|
                        0 <= j < out@.len() && #[trigger] out@[j].0 == c,
                forall|j1: int, j2: int|
                    0 <= j1 < j2 < out@.len() ==> (#[trigger] out@[j1]).0 < (#[trigger] out@[j2]).0,
            decreases n - i,
        {
            let ghost out_pre = out@;
            if self.cells[i].is_border {
                out.push(CellId(i));
            }
            proof {
                assert forall|c: int| 0 <= c <= i && self.cells@[c].is_border implies exists|j: int|
                    0 <= j < out@.len() && #[trigger] out@[j].0 == c by {
                    if c < i {
                        let j = choose|j: int| 0 <= j < out_pre.len() && #[trigger] out_pre[j].0 == c;
                        assert(out@[j].0 == c);
                    } else {
                        assert(out@[out@.len() - 1].0 == c);
                    }
                };
            }
            i = i + 1;
        }
        out
    }
}

/// Membership of a cell id in a sequence.
pub open spec fn contains_cid(s: Seq<CellId>, x: usize) -> bool {
    exists|j: int| 0 <= j < s.len() && #[trigger] s[j].0 == x
}

/// True iff some entry of `v` carries the index `x`.
pub fn contains_cell(v: &Vec<CellId>, x: usize) -> (r: bool)
    ensures
        r == contains_cid(v@, x),
{
    let n = v.len();
    let mut i: usize = 0;
    while i < n
        invariant
            i <= n,
            n == v@.len(),
            forall|j: int| 0 <= j < i ==> #[trigger] v@[j].0 != x,
        decreases n - i,
    {
        if v[i].0 == x {
            return true;
        }
        i = i + 1;
    }
    false
}

proof fn lemma_abs_mul(a: int, b: int, ab: int, bb: int)
    by (nonlinear_arith)
    requires
        -ab <= a <= ab,
        -bb <= b <= bb,
        ab >= 0,
        bb >= 0,
    ensures
        -(ab * bb) <= a * b <= ab * bb,
{
}

/// The element-wise view of a sequence of index lists.
pub open spec fn deep(s: Seq<Vec<usize>>) -> Seq<Seq<usize>> {
    s.map_values(|v: Vec<usize>| v@)
}

/// The element-wise view of a sequence of point lists.
pub open spec fn deep_points(s: Seq<Vec<(i64, i64)>>) -> Seq<Seq<(i64, i64)>> {
    s.map_values(|v: Vec<(i64, i64)>| v@)
}

/// Membership of a plain index in a sequence.
pub open spec fn contains_val(s: Seq<usize>, x: usize) -> bool {
    exists|j: int| 0 <= j < s.len() && s[j] == x
}

/// Membership of an index pair in a sequence.
pub open spec fn contains_pair_val(s: Seq<(usize, usize)>, a: usize, b: usize) -> bool {
    exists|j: int| 0 <= j < s.len() && s[j] == (a, b)
}

/// First position whose coordinate equals `(x, y)` at or after `i`, or the
/// length when there is none.
pub open spec fn find_coord_from(coords: Seq<(i64, i64)>, x: i64, y: i64, i: int) -> int
    decreases coords.len() - i,
{
    if i < 0 || i >= coords.len() {
        coords.len() as int
    } else if coords[i].0 == x && coords[i].1 == y {
        i
    } else {
        find_coord_from(coords, x, y, i + 1)
    }
}

/// First position holding the endpoint pair `(mn, mx)` at or after `i`, or
/// the length when there is none.
pub open spec fn find_pair_from(ends: Seq<(usize, usize)>, mn: usize, mx: usize, i: int) -> int
    decreases ends.len() - i,
{
    if i < 0 || i >= ends.len() {
        ends.len() as int
    } else if ends[i].0 == mn && ends[i].1 == mx {
        i
    } else {
        find_pair_from(ends, mn, mx, i + 1)
    }
}

/// One polygon's first `k` points folded into the vertex table: each
/// point resolves to the id of its first occurrence (a new id when the
/// coordinate is new), and consecutive repeats collapse.
pub open spec fn scan_points(
    coords0: Seq<(i64, i64)>,
    pts: Seq<(i64, i64)>,
    k: int,
) -> (Seq<(i64, i64)>, Seq<usize>)
    decreases k,
{
    if k <= 0 {
        (coords0, Seq::<usize>::empty())
    } else {
        let prev = scan_points(coords0, pts, k - 1);
        let x = pts[k - 1].0;
        let y = pts[k - 1].1;
        let idx = find_coord_from(prev.0, x, y, 0);
        let vid = idx as usize;
        let coords2 = if idx == prev.0.len() {
            prev.0.push((x, y))
        } else {
            prev.0
        };
        let dup = prev.1.len() > 0 && prev.1.last() == vid;
        (
            coords2,
            if dup {
                prev.1
            } else {
                prev.1.push(vid)
            },
        )
    }
}

/// A closing repeat of the first corner is dropped.
pub open spec fn close_corners(c: Seq<usize>) -> Seq<usize> {
    if c.len() >= 2 && c[0] == c[c.len() - 1] {
        c.drop_last()
    } else {
        c
    }
}

/// The vertex table and per-cell corner lists of the first `i` polygons.
pub open spec fn scan_polys(polys: Seq<Seq<(i64, i64)>>, i: int) -> (
    Seq<(i64, i64)>,
    Seq<Seq<usize>>,
)
    decreases i,
{
    if i <= 0 {
        (Seq::empty(), Seq::empty())
    } else {
        let prev = scan_polys(polys, i - 1);
        let sp = scan_points(prev.0, polys[i - 1], polys[i - 1].len() as int);
        (sp.0, prev.1.push(close_corners(sp.1)))
    }
}

/// The canonical unordered form of a vertex pair.
pub open spec fn canon_pair(a: usize, b: usize) -> (usize, usize) {
    if a < b {
        (a, b)
    } else {
        (b, a)
    }
}

/// One cell's first `k` sides folded into the edge table: each canonical
/// side resolves to the id of its first occurrence, the cell is recorded
/// as an owner once, and the cell's own edge list collects each id once.
pub open spec fn scan_sides(
    ends0: Seq<(usize, usize)>,
    occ0: Seq<(usize, usize)>,
    ced0: Seq<usize>,
    corners: Seq<usize>,
    ci: usize,
    k: int,
) -> (Seq<(usize, usize)>, Seq<(usize, usize)>, Seq<usize>)
    decreases k,
{
    if k <= 0 {
        (ends0, occ0, ced0)
    } else {
        let prev = scan_sides(ends0, occ0, ced0, corners, ci, k - 1);
        let a = corners[k - 1];
        let b = corners[if k == corners.len() {
            0int
        } else {
            k
        }];
        let mnmx = canon_pair(a, b);
        let idx = find_pair_from(prev.0, mnmx.0, mnmx.1, 0);
        let eid = idx as usize;
        let ends2 = if idx == prev.0.len() {
            prev.0.push(mnmx)
        } else {
            prev.0
        };
        let occ2 = if contains_pair_val(prev.1, eid, ci) {
            prev.1
        } else {
            prev.1.push((eid, ci))
        };
        let ced2 = if contains_val(prev.2, eid) {
            prev.2
        } else {
            prev.2.push(eid)
        };
        (ends2, occ2, ced2)
    }
}

/// The edge table, the ownership occurrences and the per-cell edge lists
/// of the first `i` corner lists.
pub open spec fn scan_cells_sides(corner_lists: Seq<Seq<usize>>, i: int) -> (
    Seq<(usize, usize)>,
    Seq<(usize, usize)>,
    Seq<Seq<usize>>,
)
    decreases i,
{
    if i <= 0 {
        (Seq::empty(), Seq::empty(), Seq::empty())
    } else {
        let prev = scan_cells_sides(corner_lists, i - 1);
        let ss = scan_sides(
            prev.0,
            prev.1,
            Seq::empty(),
            corner_lists[i - 1],
            (i - 1) as usize,
            corner_lists[i - 1].len() as int,
        );
        (ss.0, ss.1, prev.2.push(ss.2))
    }
}

proof fn lemma_scan_cells_sides_prefix(cl1: Seq<Seq<usize>>, cl2: Seq<Seq<usize>>, i: int)
    requires
        i <= cl1.len(),
        i <= cl2.len(),
        forall|j: int| 0 <= j < i ==> cl1[j] == cl2[j],
    ensures
        scan_cells_sides(cl1, i) == scan_cells_sides(cl2, i),
    decreases i,
{
    if i > 0 {
        lemma_scan_cells_sides_prefix(cl1, cl2, i - 1);
    }
}

/// The owner cells of edge `e` among the first `q` ownership occurrences.
pub open spec fn owners_upto(occ: Seq<(usize, usize)>, e: usize, q: int) -> Seq<usize>
    decreases q,
{
    if q <= 0 {
        Seq::empty()
    } else {
        let prev = owners_upto(occ, e, q - 1);
        if occ[q - 1].0 == e {
            prev.push(occ[q - 1].1)
        } else {
            prev
        }
    }
}

/// The incident edges of vertex `v` among the first `q` edges, paired with
/// the vertex across each of them.
pub open spec fn incident_upto(ends: Seq<(usize, usize)>, v: usize, q: int) -> (
    Seq<EdgeId>,
    Seq<VertexId>,
)
    decreases q,
{
    if q <= 0 {
        (Seq::empty(), Seq::empty())
    } else {
        let prev = incident_upto(ends, v, q - 1);
        let mn = ends[q - 1].0;
        let mx = ends[q - 1].1;
        if mn == v {
            (prev.0.push(EdgeId((q - 1) as usize)), prev.1.push(VertexId(mx)))
        } else if mx == v {
            (prev.0.push(EdgeId((q - 1) as usize)), prev.1.push(VertexId(mn)))
        } else {
            prev
        }
    }
}

/// The cells listing vertex `v` among the first `c` corner lists.
pub open spec fn vertex_cells_upto(cl: Seq<Seq<usize>>, v: usize, c: int) -> Seq<CellId>
    decreases c,
{
    if c <= 0 {
        Seq::empty()
    } else {
        let prev = vertex_cells_upto(cl, v, c - 1);
        if contains_val(cl[c - 1], v) {
            prev.push(CellId((c - 1) as usize))
        } else {
            prev
        }
    }
}

/// Whether corner id `vid` names an assembled vertex on the rectangle.
pub open spec fn corner_border(width: i64, height: i64, coords: Seq<(i64, i64)>, vid: usize) -> bool {
    vid < coords.len() && (coords[vid as int].0 == 0 || coords[vid as int].1 == 0
        || coords[vid as int].0 == width || coords[vid as int].1 == height)
}

/// Whether any of the first `q` corners of a cell lies on the rectangle.
pub open spec fn border_upto(
    width: i64,
    height: i64,
    coords: Seq<(i64, i64)>,
    corners: Seq<usize>,
    q: int,
) -> bool
    decreases q,
{
    if q <= 0 {
        false
    } else {
        border_upto(width, height, coords, corners, q - 1) || corner_border(
            width,
            height,
            coords,
            corners[q - 1],
        )
    }
}

/// The neighbor cells derived from the first `q` edges of one cell's edge
/// list: each doubly-owned edge contributes its other owner once.
pub open spec fn nbrs_upto(
    occ: Seq<(usize, usize)>,
    ne: int,
    cel: Seq<usize>,
    ci: usize,
    q: int,
) -> Seq<CellId>
    decreases q,
{
    if q <= 0 {
        Seq::empty()
    } else {
        let prev = nbrs_upto(occ, ne, cel, ci, q - 1);
        let eid = cel[q - 1];
        if (eid as int) < ne {
            let own = owners_upto(occ, eid, occ.len() as int);
            if own.len() == 2 {
                let other = if own[0] == ci {
                    own[1]
                } else {
                    own[0]
                };
                if contains_cid(prev, other) {
                    prev
                } else {
                    prev.push(CellId(other))
                }
            } else {
                prev
            }
        } else {
            prev
        }
    }
}

fn contains_usize(v: &Vec<usize>, x: usize) -> (r: bool)
    ensures
        r == contains_val(v@, x),
{
    let n = v.len();
    let mut i: usize = 0;
    while i < n
        invariant
            i <= n,
            n == v@.len(),
            forall|j: int| 0 <= j < i ==> v@[j] != x,
        decreases n - i,
    {
        if v[i] == x {
            return true;
        }
        i = i + 1;
    }
    false
}

fn contains_pair(v: &Vec<(usize, usize)>, a: usize, b: usize) -> (r: bool)
    ensures
        r == contains_pair_val(v@, a, b),
{
    let n = v.len();
    let mut i: usize = 0;
    while i < n
        invariant
            i <= n,
            n == v@.len(),
            forall|j: int| 0 <= j < i ==> v@[j] != (a, b),
        decreases n - i,
    {
        if v[i].0 == a && v[i].1 == b {
            return true;
        }
        i = i + 1;
    }
    false
}

/// First vertex index whose coordinate equals `(x, y)` exactly, as an
/// index into the list, or the length when the coordinate is new.
fn find_coord(coords: &Vec<(i64, i64)>, x: i64, y: i64) -> (r: usize)
    ensures
        r == find_coord_from(coords@, x, y, 0),
        r <= coords@.len(),
{
    let n = coords.len();
    let mut i: usize = 0;
    while i < n
        invariant
            i <= n,
            n == coords@.len(),
            find_coord_from(coords@, x, y, 0) == find_coord_from(coords@, x, y, i as int),
        decreases n - i,
    {
        if coords[i].0 == x && coords[i].1 == y {
            return i;
        }
        i = i + 1;
    }
    n
}

/// First edge index with the canonical endpoint pair `(mn, mx)`, or the
/// length when the pair is new.
fn find_edge_pair(ends: &Vec<(usize, usize)>, mn: usize, mx: usize) -> (r: usize)
    ensures
        r == find_pair_from(ends@, mn, mx, 0),
        r <= ends@.len(),
{
    let n = ends.len();
    let mut i: usize = 0;
    while i < n
        invariant
            i <= n,
            n == ends@.len(),
            find_pair_from(ends@, mn, mx, 0) == find_pair_from(ends@, mn, mx, i as int),
        decreases n - i,
    {
        if ends[i].0 == mn && ends[i].1 == mx {
            return i;
        }
        i = i + 1;
    }
    n
}

impl PolyMap {
    fn vertex_ok(&self, v: usize) -> (r: bool)
        requires
            v < self.nv(),
        ensures
            r == self.wf_vertex(v as int),
    {
        let vt = &self.vertices[v];
        if !(0 <= vt.x && vt.x <= self.width && 0 <= vt.y && vt.y <= self.height) {
            return false;
        }
        if vt.is_border != (vt.x == 0 || vt.y == 0 || vt.x == self.width || vt.y == self.height) {
            return false;
        }
        if vt.edges.len() != vt.neighbors.len() {
            return false;
        }
        if vt.edges.len() > COUNT_LIMIT {
            return false;
        }
        let ne = self.edges.len();
        let nk = vt.edges.len();
        let mut k: usize = 0;
        while k < nk
            invariant
                k <= nk,
                nk == vt.edges@.len(),
                nk == vt.neighbors@.len(),
                ne == self.ne(),
                vt == self.vertices@[v as int],
                v < self.nv(),
                forall|kk: int|
                    0 <= kk < k ==> #[trigger] vt.edges@[kk].0 < self.ne()
                        && (self.edges@[vt.edges@[kk].0 as int].min.0 == v
                            || self.edges@[vt.edges@[kk].0 as int].max.0 == v)
                        && vt.neighbors@[kk].0 == (if self.edges@[vt.edges@[kk].0 as int].min.0
                            == v as int {
                            self.edges@[vt.edges@[kk].0 as int].max.0
                        } else {
                            self.edges@[vt.edges@[kk].0 as int].min.0
                        }),
            decreases nk - k,
        {
            let e = vt.edges[k].0;
            if e >= ne {
                return false;
            }
            let ed = &self.edges[e];
            if ed.min.0 == v {
                if vt.neighbors[k].0 != ed.max.0 {
                    return false;
                }
            } else if ed.max.0 == v {
                if vt.neighbors[k].0 != ed.min.0 {
                    return false;
                }
            } else {
                return false;
            }
            k = k + 1;
        }
        let nl = vt.cells.len();
        let nc = self.cells.len();
        let mut l: usize = 0;
        while l < nl
            invariant
                l <= nl,
                nl == vt.cells@.len(),
                nc == self.nc(),
                vt == self.vertices@[v as int],
                forall|kk: int| 0 <= kk < l ==> #[trigger] vt.cells@[kk].0 < self.nc(),
            decreases nl - l,
        {
            if vt.cells[l].0 >= nc {
                return false;
            }
            l = l + 1;
        }
        true
    }

    fn edge_ok(&self, e: usize) -> (r: bool)
        requires
            e < self.ne(),
        ensures
            r == self.wf_edge(e as int),
    {
        let ed = &self.edges[e];
        if !(ed.min.0 < ed.max.0 && ed.max.0 < self.vertices.len()) {
            return false;
        }
        let ncl = ed.cells.len();
        if !(1 <= ncl && ncl <= 2) {
            return false;
        }
        let nc = self.cells.len();
        if ed.cells[0].0 >= nc {
            return false;
        }
        if ncl == 2 {
            if ed.cells[1].0 >= nc {
                return false;
            }
            if ed.cells[0].0 == ed.cells[1].0 {
                return false;
            }
        }
        if ncl == 1 {
            if !(self.vertices[ed.min.0].is_border && self.vertices[ed.max.0].is_border) {
                return false;
            }
        }
        proof {
            assert forall|k: int| 0 <= k < ed.cells@.len() implies #[trigger] ed.cells@[k].0
                < self.nc() by {
                if k != 0 {
                    assert(k == 1);
                }
            };
        }
        true
    }

    fn cell_ok(&self, c: usize) -> (r: bool)
        requires
            c < self.nc(),
        ensures
            r == self.wf_cell(c as int),
    {
        let cl = &self.cells[c];
        if cl.corners.len() < 3 || cl.corners.len() > COUNT_LIMIT {
            return false;
        }
        let nv = self.vertices.len();
        let ne = self.edges.len();
        let nc = self.cells.len();
        let nk = cl.corners.len();
        let mut k: usize = 0;
        let mut any_border: bool = false;
        while k < nk
            invariant
                k <= nk,
                nk == cl.corners@.len(),
                nv == self.nv(),
                cl == self.cells@[c as int],
                forall|kk: int| 0 <= kk < k ==> #[trigger] cl.corners@[kk].0 < self.nv(),
                any_border <==> exists|kk: int|
                    0 <= kk < k && self.vertices@[#[trigger] cl.corners@[kk].0 as int].is_border,
            decreases nk - k,
        {
            let vid = cl.corners[k].0;
            if vid >= nv {
                return false;
            }
            if self.vertices[vid].is_border {
                any_border = true;
            }
            k = k + 1;
        }
        if cl.is_border != any_border {
            return false;
        }
        let nl = cl.edges.len();
        let mut l: usize = 0;
        while l < nl
            invariant
                l <= nl,
                nl == cl.edges@.len(),
                ne == self.ne(),
                cl == self.cells@[c as int],
                forall|kk: int| 0 <= kk < l ==> #[trigger] cl.edges@[kk].0 < self.ne(),
            decreases nl - l,
        {
            if cl.edges[l].0 >= ne {
                return false;
            }
            l = l + 1;
        }
        let nn = cl.neighbors.len();
        let mut m: usize = 0;
        while m < nn
            invariant
                m <= nn,
                nn == cl.neighbors@.len(),
                nc == self.nc(),
                c < self.nc(),
                cl == self.cells@[c as int],
                forall|kk: int|
                    0 <= kk < m ==> #[trigger] cl.neighbors@[kk].0 < self.nc()
                        && cl.neighbors@[kk].0 != c,
                forall|kk: int, ll: int|
                    0 <= kk < ll < m ==> #[trigger] cl.neighbors@[kk].0
                        != #[trigger] cl.neighbors@[ll].0,
            decreases nn - m,
        {
            let b = cl.neighbors[m].0;
            if b >= nc || b == c {
                return false;
            }
            let mut p: usize = 0;
            while p < m
                invariant
                    p <= m,
                    m < nn,
                    nn == cl.neighbors@.len(),
                    cl == self.cells@[c as int],
                    b == cl.neighbors@[m as int].0,
                    forall|kk: int| 0 <= kk < p ==> #[trigger] cl.neighbors@[kk].0 != b,
                decreases m - p,
            {
                if cl.neighbors[p].0 == b {
                    return false;
                }
                p = p + 1;
            }
            m = m + 1;
        }
        true
    }

    fn symmetry_ok(&self) -> (r: bool)
        requires
            forall|c: int| 0 <= c < self.nc() ==> self.wf_cell(c),
        ensures
            r == self.wf_symmetry(),
    {
        let nc = self.cells.len();
        let mut a: usize = 0;
        while a < nc
            invariant
                a <= nc,
                nc == self.nc(),
                forall|c: int| 0 <= c < self.nc() ==> self.wf_cell(c),
                forall|aa: int, b: int|
                    0 <= aa < a && 0 <= b < self.nc() && #[trigger] self.cell_neighbors_contain(
                        aa,
                        b,
                    ) ==> self.cell_neighbors_contain(b, aa),
            decreases nc - a,
        {
            let nn = self.cells[a].neighbors.len();
            let mut k: usize = 0;
            while k < nn
                invariant
                    k <= nn,
                    a < nc,
                    nc == self.nc(),
                    nn == self.cells@[a as int].neighbors@.len(),
                    forall|c: int| 0 <= c < self.nc() ==> self.wf_cell(c),
                    forall|kk: int|
                        0 <= kk < k ==> self.cell_neighbors_contain(
                            #[trigger] self.cells@[a as int].neighbors@[kk].0 as int,
                            a as int,
                        ),
                decreases nn - k,
            {
                let b = self.cells[a].neighbors[k].0;
                assert(self.wf_cell(a as int));
                if !contains_cell(&self.cells[b].neighbors, a) {
                    proof {
                        assert(self.cell_neighbors_contain(a as int, b as int));
                        assert(!self.cell_neighbors_contain(b as int, a as int));
                    }
                    return false;
                }
                k = k + 1;
            }
            proof {
                assert forall|b: int|
                    0 <= b < self.nc() && #[trigger] self.cell_neighbors_contain(a as int, b)
                        implies self.cell_neighbors_contain(b, a as int) by {
                    let kk = choose|kk: int|
                        0 <= kk < self.cells@[a as int].neighbors@.len()
                            && #[trigger] self.cells@[a as int].neighbors@[kk].0 == b;
                    assert(self.cell_neighbors_contain(
                        self.cells@[a as int].neighbors@[kk].0 as int,
                        a as int,
                    ));
                };
            }
            a = a + 1;
        }
        true
    }

    fn edge_adjacency_ok(&self) -> (r: bool)
        requires
            forall|e: int| 0 <= e < self.ne() ==> self.wf_edge(e),
        ensures
            r == self.wf_edge_adjacency(),
    {
        let ne = self.edges.len();
        let mut e: usize = 0;
        while e < ne
            invariant
                e <= ne,
                ne == self.ne(),
                forall|ee: int| 0 <= ee < self.ne() ==> self.wf_edge(ee),
                forall|ee: int|
                    0 <= ee < e && #[trigger] self.edges@[ee].cells@.len() == 2
                        ==> self.cell_neighbors_contain(
                        self.edges@[ee].cells@[0].0 as int,
                        self.edges@[ee].cells@[1].0 as int,
                    ) && self.cell_neighbors_contain(
                        self.edges@[ee].cells@[1].0 as int,
                        self.edges@[ee].cells@[0].0 as int,
                    ),
            decreases ne - e,
        {
            assert(self.wf_edge(e as int));
            if self.edges[e].cells.len() == 2 {
                let a = self.edges[e].cells[0].0;
                let b = self.edges[e].cells[1].0;
                if !contains_cell(&self.cells[a].neighbors, b) {
                    return false;
                }
                if !contains_cell(&self.cells[b].neighbors, a) {
                    return false;
                }
            }
            e = e + 1;
        }
        true
    }

    /// The deep correspondence between a mesh value and the spec-level
    /// assembly of the input polygons: every stored field equals the table
    /// the assembly derives from the points.  In particular, points equal
    /// as coordinates resolve to one shared vertex id (`scan_points`
    /// resolves each point to its first occurrence) and each unordered
    /// vertex pair appears as at most one edge (`scan_sides` resolves each
    /// canonical side to its first occurrence).
    pub open spec fn assembled(
        width: i64,
        height: i64,
        polys: Seq<Seq<(i64, i64)>>,
        m: PolyMap,
    ) -> bool {
        let cp = scan_polys(polys, polys.len() as int);
        let es = scan_cells_sides(cp.1, cp.1.len() as int);
        &&& m.width == width
        &&& m.height == height
        &&& m.vertices@.len() == cp.0.len()
        &&& forall|v: int|
            0 <= v < cp.0.len() ==> (#[trigger] m.vertices@[v]).x == cp.0[v].0
                && m.vertices@[v].y == cp.0[v].1 && (m.vertices@[v].is_border <==> (cp.0[v].0 == 0
                || cp.0[v].1 == 0 || cp.0[v].0 == width || cp.0[v].1 == height))
                && m.vertices@[v].edges@ == incident_upto(es.0, v as usize, es.0.len() as int).0
                && m.vertices@[v].neighbors@ == incident_upto(es.0, v as usize, es.0.len() as int).1
                && m.vertices@[v].cells@ == vertex_cells_upto(cp.1, v as usize, cp.1.len() as int)
        &&& m.edges@.len() == es.0.len()
        &&& forall|e: int|
            0 <= e < es.0.len() ==> (#[trigger] m.edges@[e]).min.0 == es.0[e].0
                && m.edges@[e].max.0 == es.0[e].1 && m.edges@[e].cells@ == owners_upto(
                es.1,
                e as usize,
                es.1.len() as int,
            ).map_values(|c: usize| CellId(c))
        &&& m.cells@.len() == polys.len()
        &&& forall|c: int|
            0 <= c < polys.len() ==> (#[trigger] m.cells@[c]).corners@ == cp.1[c].map_values(
                |v: usize| VertexId(v),
            ) && m.cells@[c].edges@ == es.2[c].map_values(|e: usize| EdgeId(e))
                && m.cells@[c].is_border == border_upto(
                width,
                height,
                cp.0,
                cp.1[c],
                cp.1[c].len() as int,
            ) && m.cells@[c].neighbors@ == nbrs_upto(
                es.1,
                es.0.len() as int,
                es.2[c],
                c as usize,
                es.2[c].len() as int,
            )
    }

    /// Assembles the mesh records from the polygons, with no validation:
    /// the result is exactly the spec-level assembly.
    fn assemble(width: i64, height: i64, polys: &Vec<Vec<(i64, i64)>>) -> (m: PolyMap)
        ensures
            Self::assembled(width, height, deep_points(polys@), m),
    {
        let npolys = polys.len();
        let mut coords: Vec<(i64, i64)> = Vec::new();
        let mut corner_lists: Vec<Vec<usize>> = Vec::new();
        let mut edge_ends: Vec<(usize, usize)> = Vec::new();
        let mut cell_edge_lists: Vec<Vec<usize>> = Vec::new();
        let mut occ: Vec<(usize, usize)> = Vec::new();
        let mut i: usize = 0;
        while i < npolys
            invariant
                i <= npolys,
                npolys == polys@.len(),
                corner_lists@.len() == i,
                cell_edge_lists@.len() == i,
                coords@ == scan_polys(deep_points(polys@), i as int).0,
                deep(corner_lists@) == scan_polys(deep_points(polys@), i as int).1,
                edge_ends@ == scan_cells_sides(deep(corner_lists@), i as int).0,
                occ@ == scan_cells_sides(deep(corner_lists@), i as int).1,
                deep(cell_edge_lists@) == scan_cells_sides(deep(corner_lists@), i as int).2,
            decreases npolys - i,
        {
            let pts = &polys[i];
            let np = pts.len();
            let ghost coords_start = coords@;
            let mut corners: Vec<usize> = Vec::new();
            let mut k: usize = 0;
            while k < np
                invariant
                    k <= np,
                    np == pts@.len(),
                    coords@ == scan_points(coords_start, pts@, k as int).0,
                    corners@ == scan_points(coords_start, pts@, k as int).1,
                decreases np - k,
            {
                let x = pts[k].0;
                let y = pts[k].1;
                let vid = find_coord(&coords, x, y);
                if vid == coords.len() {
                    coords.push((x, y));
                }
                let dup = corners.len() > 0 && *corners.last().unwrap() == vid;
                if !dup {
                    corners.push(vid);
                }
                k = k + 1;
            }
            if corners.len() >= 2 && corners[0] == corners[corners.len() - 1] {
                corners.pop();
            }
            proof {
                assert(deep_points(polys@)[i as int] == pts@);
                assert(corners@ == close_corners(
                    scan_points(coords_start, pts@, np as int).1,
                ));
            }
            let ncr = corners.len();
            let ghost ends_start = edge_ends@;
            let ghost occ_start = occ@;
            let mut cedges: Vec<usize> = Vec::new();
            let mut k2: usize = 0;
            while k2 < ncr
                invariant
                    k2 <= ncr,
                    ncr == corners@.len(),
                    i < npolys,
                    edge_ends@ == scan_sides(
                        ends_start,
                        occ_start,
                        Seq::empty(),
                        corners@,
                        i,
                        k2 as int,
                    ).0,
                    occ@ == scan_sides(
                        ends_start,
                        occ_start,
                        Seq::empty(),
                        corners@,
                        i,
                        k2 as int,
                    ).1,
                    cedges@ == scan_sides(
                        ends_start,
                        occ_start,
                        Seq::empty(),
                        corners@,
                        i,
                        k2 as int,
                    ).2,
                decreases ncr - k2,
            {
                let a = corners[k2];
                let b = corners[if k2 + 1 == ncr {
                    0
                } else {
                    k2 + 1
                }];
                let mn = if a < b {
                    a
                } else {
                    b
                };
                let mx = if a < b {
                    b
                } else {
                    a
                };
                let eid = find_edge_pair(&edge_ends, mn, mx);
                if eid == edge_ends.len() {
                    edge_ends.push((mn, mx));
                }
                if !contains_pair(&occ, eid, i) {
                    occ.push((eid, i));
                }
                if !contains_usize(&cedges, eid) {
                    cedges.push(eid);
                }
                k2 = k2 + 1;
            }
            let ghost cl_pre = deep(corner_lists@);
            corner_lists.push(corners);
            cell_edge_lists.push(cedges);
            proof {
                assert(deep(corner_lists@) =~= cl_pre.push(
                    close_corners(scan_points(coords_start, pts@, np as int).1),
                ));
                assert(deep(corner_lists@) =~= scan_polys(deep_points(polys@), (i + 1) as int).1);
                lemma_scan_cells_sides_prefix(cl_pre, deep(corner_lists@), i as int);
                assert(deep(cell_edge_lists@) =~= scan_cells_sides(
                    deep(corner_lists@),
                    (i + 1) as int,
                ).2);
            }
            i = i + 1;
        }
        let nv = coords.len();
        let ne = edge_ends.len();
        // Owner cells of each edge.
        let mut owners: Vec<Vec<usize>> = Vec::new();
        let mut e: usize = 0;
        while e < ne
            invariant
                e <= ne,
                ne == edge_ends@.len(),
                owners@.len() == e,
                forall|ee: int|
                    0 <= ee < e ==> (#[trigger] owners@[ee])@ == owners_upto(
                        occ@,
                        ee as usize,
                        occ@.len() as int,
                    ),
            decreases ne - e,
        {
            let mut own: Vec<usize> = Vec::new();
            let nocc = occ.len();
            let mut q: usize = 0;
            while q < nocc
                invariant
                    q <= nocc,
                    nocc == occ@.len(),
                    e < ne,
                    own@ == owners_upto(occ@, e, q as int),
                decreases nocc - q,
            {
                if occ[q].0 == e {
                    own.push(occ[q].1);
                }
                q = q + 1;
            }
            owners.push(own);
            e = e + 1;
        }
        // Incident edges, derived vertex neighbors, and bounding cells.
        let mut vertices: Vec<Vertex> = Vec::new();
        let mut v: usize = 0;
        while v < nv
            invariant
                v <= nv,
                nv == coords@.len(),
                ne == edge_ends@.len(),
                npolys == corner_lists@.len(),
                vertices@.len() == v,
                forall|j: int|
                    0 <= j < v ==> (#[trigger] vertices@[j]).x == coords@[j].0
                        && vertices@[j].y == coords@[j].1 && (vertices@[j].is_border <==> (
                    coords@[j].0 == 0 || coords@[j].1 == 0 || coords@[j].0 == width
                        || coords@[j].1 == height)) && vertices@[j].edges@ == incident_upto(
                        edge_ends@,
                        j as usize,
                        ne as int,
                    ).0 && vertices@[j].neighbors@ == incident_upto(edge_ends@, j as usize, ne as int).1
                        && vertices@[j].cells@ == vertex_cells_upto(
                        deep(corner_lists@),
                        j as usize,
                        npolys as int,
                    ),
            decreases nv - v,
        {
            let x = coords[v].0;
            let y = coords[v].1;
            let mut ves: Vec<EdgeId> = Vec::new();
            let mut vns: Vec<VertexId> = Vec::new();
            let mut q: usize = 0;
            while q < ne
                invariant
                    q <= ne,
                    ne == edge_ends@.len(),
                    v < nv,
                    ves@ == incident_upto(edge_ends@, v, q as int).0,
                    vns@ == incident_upto(edge_ends@, v, q as int).1,
                decreases ne - q,
            {
                let mn = edge_ends[q].0;
                let mx = edge_ends[q].1;
                if mn == v {
                    ves.push(EdgeId(q));
                    vns.push(VertexId(mx));
                } else if mx == v {
                    ves.push(EdgeId(q));
                    vns.push(VertexId(mn));
                }
                q = q + 1;
            }
            let mut vcs: Vec<CellId> = Vec::new();
            let ncl = corner_lists.len();
            let mut c: usize = 0;
            while c < ncl
                invariant
                    c <= ncl,
                    ncl == corner_lists@.len(),
                    v < nv,
                    vcs@ == vertex_cells_upto(deep(corner_lists@), v, c as int),
                decreases ncl - c,
            {
                proof {
                    assert(deep(corner_lists@)[c as int] == corner_lists@[c as int]@);
                }
                if contains_usize(&corner_lists[c], v) {
                    vcs.push(CellId(c));
                }
                c = c + 1;
            }
            vertices.push(
                Vertex {
                    x,
                    y,
                    edges: ves,
                    neighbors: vns,
                    cells: vcs,
                    is_border: x == 0 || y == 0 || x == width || y == height,
                },
            );
            v = v + 1;
        }
        // Edge records.
        let mut edges: Vec<Edge> = Vec::new();
        let mut e2: usize = 0;
        while e2 < ne
            invariant
                e2 <= ne,
                ne == edge_ends@.len(),
                ne == owners@.len(),
                forall|ee: int|
                    0 <= ee < ne ==> (#[trigger] owners@[ee])@ == owners_upto(
                        occ@,
                        ee as usize,
                        occ@.len() as int,
                    ),
                edges@.len() == e2,
                forall|ee: int|
                    0 <= ee < e2 ==> (#[trigger] edges@[ee]).min.0 == edge_ends@[ee].0
                        && edges@[ee].max.0 == edge_ends@[ee].1 && edges@[ee].cells@ == owners_upto(
                        occ@,
                        ee as usize,
                        occ@.len() as int,
                    ).map_values(|c: usize| CellId(c)),
            decreases ne - e2,
        {
            let mn = edge_ends[e2].0;
            let mx = edge_ends[e2].1;
            let own = &owners[e2];
            let mut ecells: Vec<CellId> = Vec::new();
            let mut q: usize = 0;
            let nown = own.len();
            while q < nown
                invariant
                    q <= nown,
                    nown == own@.len(),
                    ecells@.len() == q,
                    forall|p: int| 0 <= p < q ==> #[trigger] ecells@[p] == CellId(own@[p]),
                decreases nown - q,
            {
                ecells.push(CellId(own[q]));
                q = q + 1;
            }
            proof {
                assert(ecells@ =~= owners_upto(occ@, e2, occ@.len() as int).map_values(
                    |c: usize| CellId(c),
                ));
            }
            edges.push(Edge { min: VertexId(mn), max: VertexId(mx), cells: ecells });
            e2 = e2 + 1;
        }
        // Cell records with adjacency via shared edges.
        let mut cells: Vec<Cell> = Vec::new();
        let mut c2: usize = 0;
        while c2 < npolys
            invariant
                c2 <= npolys,
                npolys == polys@.len(),
                npolys == corner_lists@.len(),
                npolys == cell_edge_lists@.len(),
                nv == coords@.len(),
                nv == vertices@.len(),
                ne == edge_ends@.len(),
                ne == owners@.len(),
                forall|j: int|
                    0 <= j < nv ==> ((#[trigger] vertices@[j]).is_border <==> (coords@[j].0 == 0
                        || coords@[j].1 == 0 || coords@[j].0 == width || coords@[j].1 == height)),
                forall|ee: int|
                    0 <= ee < ne ==> (#[trigger] owners@[ee])@ == owners_upto(
                        occ@,
                        ee as usize,
                        occ@.len() as int,
                    ),
                cells@.len() == c2,
                forall|j: int|
                    0 <= j < c2 ==> (#[trigger] cells@[j]).corners@ == deep(corner_lists@)[j].map_values(
                        |vv: usize| VertexId(vv),
                    ) && cells@[j].edges@ == deep(cell_edge_lists@)[j].map_values(
                        |ee: usize| EdgeId(ee),
                    ) && cells@[j].is_border == border_upto(
                        width,
                        height,
                        coords@,
                        deep(corner_lists@)[j],
                        deep(corner_lists@)[j].len() as int,
                    ) && cells@[j].neighbors@ == nbrs_upto(
                        occ@,
                        ne as int,
                        deep(cell_edge_lists@)[j],
                        j as usize,
                        deep(cell_edge_lists@)[j].len() as int,
                    ),
            decreases npolys - c2,
        {
            proof {
                assert(deep(corner_lists@)[c2 as int] == corner_lists@[c2 as int]@);
                assert(deep(cell_edge_lists@)[c2 as int] == cell_edge_lists@[c2 as int]@);
            }
            let corners_raw = &corner_lists[c2];
            let mut corners: Vec<VertexId> = Vec::new();
            let mut border: bool = false;
            let ncr = corners_raw.len();
            let mut q: usize = 0;
            while q < ncr
                invariant
                    q <= ncr,
                    ncr == corners_raw@.len(),
                    nv == coords@.len(),
                    nv == vertices@.len(),
                    forall|j: int|
                        0 <= j < nv ==> ((#[trigger] vertices@[j]).is_border <==> (coords@[j].0
                            == 0 || coords@[j].1 == 0 || coords@[j].0 == width || coords@[j].1
                            == height)),
                    corners@.len() == q,
                    forall|p: int| 0 <= p < q ==> #[trigger] corners@[p] == VertexId(corners_raw@[p]),
                    border == border_upto(width, height, coords@, corners_raw@, q as int),
                decreases ncr - q,
            {
                let vid = corners_raw[q];
                if vid < nv {
                    if vertices[vid].is_border {
                        border = true;
                    }
                }
                corners.push(VertexId(vid));
                q = q + 1;
            }
            let eids_raw = &cell_edge_lists[c2];
            let mut eids: Vec<EdgeId> = Vec::new();
            let mut nbrs: Vec<CellId> = Vec::new();
            let nce = eids_raw.len();
            let mut q2: usize = 0;
            while q2 < nce
                invariant
                    q2 <= nce,
                    nce == eids_raw@.len(),
                    ne == owners@.len(),
                    c2 < npolys,
                    forall|ee: int|
                        0 <= ee < ne ==> (#[trigger] owners@[ee])@ == owners_upto(
                            occ@,
                            ee as usize,
                            occ@.len() as int,
                        ),
                    eids@.len() == q2,
                    forall|p: int| 0 <= p < q2 ==> #[trigger] eids@[p] == EdgeId(eids_raw@[p]),
                    nbrs@ == nbrs_upto(occ@, ne as int, eids_raw@, c2, q2 as int),
                decreases nce - q2,
            {
                let eid = eids_raw[q2];
                eids.push(EdgeId(eid));
                if eid < ne {
                    let own = &owners[eid];
                    if own.len() == 2 {
                        let other = if own[0] == c2 {
                            own[1]
                        } else {
                            own[0]
                        };
                        if !contains_cell(&nbrs, other) {
                            nbrs.push(CellId(other));
                        }
                    }
                }
                q2 = q2 + 1;
            }
            cells.push(Cell { corners, edges: eids, neighbors: nbrs, is_border: border });
            proof {
                let j = c2 as int;
                assert(cells@[j].corners@ =~= deep(corner_lists@)[j].map_values(
                    |vv: usize| VertexId(vv),
                ));
                assert(cells@[j].edges@ =~= deep(cell_edge_lists@)[j].map_values(
                    |ee: usize| EdgeId(ee),
                ));
            }
            c2 = c2 + 1;
        }
        let m = PolyMap { width, height, cells, vertices, edges };
        m
    }

    /// There is a well-formed mesh assembling the polygons.
    pub open spec fn spec_buildable(width: i64, height: i64, polys: Seq<Seq<(i64, i64)>>) -> bool {
        exists|m: PolyMap| #[trigger] Self::assembled(width, height, polys, m) && m.wf()
    }

    /// Well-formedness reads only the stored tables, and the assembly
    /// correspondence pins every one of them: two meshes assembling the
    /// same polygons agree on it.
    proof fn lemma_assembled_wf_agrees(
        width: i64,
        height: i64,
        polys: Seq<Seq<(i64, i64)>>,
        m1: PolyMap,
        m2: PolyMap,
    )
        requires
            Self::assembled(width, height, polys, m1),
            Self::assembled(width, height, polys, m2),
            m1.wf(),
        ensures
            m2.wf(),
    {
        assert(m1.nc() == m2.nc() && m1.nv() == m2.nv() && m1.ne() == m2.ne());
        assert forall|v: int| 0 <= v < m2.nv() implies m2.wf_vertex(v) by {
            assert(m1.wf_vertex(v));
            let vt1 = m1.vertices@[v];
            let vt2 = m2.vertices@[v];
            assert(vt1.x == vt2.x && vt1.y == vt2.y && (vt1.is_border <==> vt2.is_border));
            assert(vt1.edges@ == vt2.edges@ && vt1.neighbors@ == vt2.neighbors@ && vt1.cells@
                == vt2.cells@);
            assert forall|k: int|
                0 <= k < vt2.edges@.len() implies #[trigger] vt2.edges@[k].0 < m2.ne() && (
            m2.edges@[vt2.edges@[k].0 as int].min.0 == v || m2.edges@[vt2.edges@[k].0 as int].max.0
                == v) && vt2.neighbors@[k].0 == (if m2.edges@[vt2.edges@[k].0 as int].min.0 == v {
                m2.edges@[vt2.edges@[k].0 as int].max.0
            } else {
                m2.edges@[vt2.edges@[k].0 as int].min.0
            }) by {
                assert(vt1.edges@[k].0 < m1.ne());
                let e = vt2.edges@[k].0 as int;
                assert(m1.edges@[e].min.0 == m2.edges@[e].min.0 && m1.edges@[e].max.0
                    == m2.edges@[e].max.0);
            }
            assert forall|k: int| 0 <= k < vt2.cells@.len() implies #[trigger] vt2.cells@[k].0
                < m2.nc() by {
                assert(vt1.cells@[k].0 < m1.nc());
            }
        }
        assert forall|e: int| 0 <= e < m2.ne() implies m2.wf_edge(e) by {
            assert(m1.wf_edge(e));
            let ed1 = m1.edges@[e];
            let ed2 = m2.edges@[e];
            assert(ed1.min == ed2.min && ed1.max == ed2.max && ed1.cells@ == ed2.cells@);
            assert forall|k: int| 0 <= k < ed2.cells@.len() implies #[trigger] ed2.cells@[k].0
                < m2.nc() by {
                assert(ed1.cells@[k].0 < m1.nc());
            }
            if ed2.cells@.len() == 1 {
                assert(m1.vertices@[ed1.min.0 as int].is_border
                    <==> m2.vertices@[ed2.min.0 as int].is_border);
                assert(m1.vertices@[ed1.max.0 as int].is_border
                    <==> m2.vertices@[ed2.max.0 as int].is_border);
            }
        }
        assert forall|c: int| 0 <= c < m2.nc() implies m2.wf_cell(c) by {
            assert(m1.wf_cell(c));
            let cl1 = m1.cells@[c];
            let cl2 = m2.cells@[c];
            assert(cl1.corners@ == cl2.corners@ && cl1.edges@ == cl2.edges@ && cl1.neighbors@
                == cl2.neighbors@ && cl1.is_border == cl2.is_border);
            assert forall|k: int| 0 <= k < cl2.corners@.len() implies #[trigger] cl2.corners@[k].0
                < m2.nv() by {
                assert(cl1.corners@[k].0 < m1.nv());
            }
            assert forall|k: int| 0 <= k < cl2.edges@.len() implies #[trigger] cl2.edges@[k].0
                < m2.ne() by {
                assert(cl1.edges@[k].0 < m1.ne());
            }
            assert forall|k: int|
                0 <= k < cl2.neighbors@.len() implies #[trigger] cl2.neighbors@[k].0 < m2.nc()
                && cl2.neighbors@[k].0 != c by {
                assert(cl1.neighbors@[k].0 < m1.nc() && cl1.neighbors@[k].0 != c);
            }
            assert((cl2.is_border <==> exists|k: int|
                0 <= k < cl2.corners@.len() && m2.vertices@[#[trigger] cl2.corners@[k].0 as int].is_border))
                by {
                if cl1.is_border {
                    let k = choose|k: int|
                        0 <= k < cl1.corners@.len() && m1.vertices@[#[trigger] cl1.corners@[k].0 as int].is_border;
                    assert(cl1.corners@[k].0 < m1.nv());
                    assert(m2.vertices@[cl2.corners@[k].0 as int].is_border);
                }
                if exists|k: int|
                    0 <= k < cl2.corners@.len() && m2.vertices@[#[trigger] cl2.corners@[k].0 as int].is_border {
                    let k = choose|k: int|
                        0 <= k < cl2.corners@.len() && m2.vertices@[#[trigger] cl2.corners@[k].0 as int].is_border;
                    assert(cl1.corners@[k].0 < m1.nv());
                    assert(m1.vertices@[cl1.corners@[k].0 as int].is_border);
                }
            }
        }
        assert forall|a: int, b: int|
            0 <= a < m2.nc() && 0 <= b < m2.nc() && #[trigger] m2.cell_neighbors_contain(a, b)
                implies m2.cell_neighbors_contain(b, a) by {
            assert(m1.cells@[a].neighbors@ == m2.cells@[a].neighbors@);
            assert(m1.cells@[b].neighbors@ == m2.cells@[b].neighbors@);
            let k = choose|k: int|
                0 <= k < m2.cells@[a].neighbors@.len() && #[trigger] m2.cells@[a].neighbors@[k].0
                    == b;
            assert(m1.cells@[a].neighbors@[k].0 == b);
            assert(m1.cell_neighbors_contain(a, b));
            assert(m1.cell_neighbors_contain(b, a));
            let k2 = choose|k2: int|
                0 <= k2 < m1.cells@[b].neighbors@.len() && #[trigger] m1.cells@[b].neighbors@[k2].0
                    == a;
            assert(m2.cells@[b].neighbors@[k2].0 == a);
        }
        assert forall|e: int|
            0 <= e < m2.ne() && #[trigger] m2.edges@[e].cells@.len() == 2
                implies m2.cell_neighbors_contain(m2.edges@[e].cells@[0].0 as int, m2.edges@[e].cells@[1].0 as int)
                && m2.cell_neighbors_contain(m2.edges@[e].cells@[1].0 as int, m2.edges@[e].cells@[0].0 as int) by {
            assert(m1.edges@[e].cells@ == m2.edges@[e].cells@);
            assert(m1.edges@[e].cells@.len() == 2);
            assert(m1.wf_edge(e));
            let a = m2.edges@[e].cells@[0].0 as int;
            let b = m2.edges@[e].cells@[1].0 as int;
            assert(0 <= a < m1.nc() && 0 <= b < m1.nc());
            assert(m1.cell_neighbors_contain(a, b) && m1.cell_neighbors_contain(b, a));
            assert(m1.cells@[a].neighbors@ == m2.cells@[a].neighbors@);
            assert(m1.cells@[b].neighbors@ == m2.cells@[b].neighbors@);
            let k = choose|k: int|
                0 <= k < m1.cells@[a].neighbors@.len() && #[trigger] m1.cells@[a].neighbors@[k].0
                    == b;
            assert(m2.cells@[a].neighbors@[k].0 == b);
            let k2 = choose|k2: int|
                0 <= k2 < m1.cells@[b].neighbors@.len() && #[trigger] m1.cells@[b].neighbors@[k2].0
                    == a;
            assert(m2.cells@[b].neighbors@[k2].0 == a);
        }
        assert forall|e: int|
            0 <= e < m2.ne() implies #[trigger] m2.edge_listed_at(m2.edges@[e].min.0 as int, e)
                && m2.edge_listed_at(m2.edges@[e].max.0 as int, e) by {
            assert(m1.edge_listed_at(m1.edges@[e].min.0 as int, e));
            assert(m1.edge_listed_at(m1.edges@[e].max.0 as int, e));
            assert(m1.wf_edge(e));
            let mn = m1.edges@[e].min.0 as int;
            let mx = m1.edges@[e].max.0 as int;
            assert(m1.vertices@[mn].edges@ == m2.vertices@[mn].edges@);
            assert(m1.vertices@[mx].edges@ == m2.vertices@[mx].edges@);
            let j = choose|j: int|
                0 <= j < m1.vertices@[mn].edges@.len() && #[trigger] m1.vertices@[mn].edges@[j].0
                    == e;
            assert(m2.vertices@[mn].edges@[j].0 == e);
            let j2 = choose|j2: int|
                0 <= j2 < m1.vertices@[mx].edges@.len() && #[trigger] m1.vertices@[mx].edges@[j2].0
                    == e;
            assert(m2.vertices@[mx].edges@[j2].0 == e);
            assert(m2.edges@[e].min.0 as int == mn && m2.edges@[e].max.0 as int == mx);
        }
        assert forall|v1: int, v2: int|
            #![trigger m2.vertices@[v1].x, m2.vertices@[v2].x]
            0 <= v1 < v2 < m2.nv() implies !(m2.vertices@[v1].x == m2.vertices@[v2].x
            && m2.vertices@[v1].y == m2.vertices@[v2].y) by {
            assert(m1.vertices@[v1].x == m2.vertices@[v1].x && m1.vertices@[v1].y
                == m2.vertices@[v1].y);
            assert(m1.vertices@[v2].x == m2.vertices@[v2].x && m1.vertices@[v2].y
                == m2.vertices@[v2].y);
        }
        assert forall|e1: int, e2: int|
            #![trigger m2.edges@[e1].min, m2.edges@[e2].min]
            0 <= e1 < e2 < m2.ne() implies !(m2.edges@[e1].min.0 == m2.edges@[e2].min.0
            && m2.edges@[e1].max.0 == m2.edges@[e2].max.0) by {
            assert(m1.edges@[e1].min == m2.edges@[e1].min && m1.edges@[e1].max == m2.edges@[e1].max);
            assert(m1.edges@[e2].min == m2.edges@[e2].min && m1.edges@[e2].max == m2.edges@[e2].max);
        }
    }

    /// Assembles a mesh from one closed polygon per cell, clipped to the
    /// `width` by `height` rectangle.  Polygon points are deduplicated by
    /// exact coordinate equality, shared sides become canonical undirected
    /// edges, cell adjacency is derived from edges owned by two cells, and
    /// the result is validated against the whole structural invariant.
    /// Construction succeeds exactly when the assembly of the polygons is
    /// well-formed; any degenerate input is rejected.
    pub fn build(width: i64, height: i64, polys: &Vec<Vec<(i64, i64)>>) -> (r: Result<
        PolyMap,
        MeshError,
    >)
        ensures
            r matches Ok(m) ==> Self::assembled(width, height, deep_points(polys@), m) && m.wf() && m.nc()
                == polys@.len() && m.width == width && m.height == height,
            r is Ok <==> Self::spec_buildable(width, height, deep_points(polys@)),
    {
        let m = Self::assemble(width, height, polys);
        if m.check_wf() {
            Ok(m)
        } else {
            proof {
                if Self::spec_buildable(width, height, deep_points(polys@)) {
                    let m2 = choose|m2: PolyMap|
                        #[trigger] Self::assembled(width, height, deep_points(polys@), m2) && m2.wf();
                    Self::lemma_assembled_wf_agrees(width, height, deep_points(polys@), m2, m);
                }
            }
            Err(MeshError::Degenerate)
        }
    }

    /// Index of the corner after `k` on cell `c`, wrapping around.
    pub open spec fn next_corner(self, c: int, k: int) -> int {
        if k + 1 == self.cells@[c].corners@.len() {
            0
        } else {
            k + 1
        }
    }

    /// Cross product of the boundary segment leaving corner `k` of cell `c`
    /// with the vector from that corner to the query point.
    pub open spec fn spec_cross(self, c: int, k: int, x: i64, y: i64) -> int {
        let cs = self.cells@[c].corners@;
        let a = self.vertices@[cs[k].0 as int];
        let b = self.vertices@[cs[self.next_corner(c, k)].0 as int];
        (b.x - a.x) * (y - a.y) - (b.y - a.y) * (x - a.x)
    }

    /// Point containment for a convex cell: the query point lies on the
    /// same side of every boundary segment (boundary points included).
    pub open spec fn cell_contains(self, c: int, x: i64, y: i64) -> bool {
        let n = self.cells@[c].corners@.len() as int;
        (forall|k: int| 0 <= k < n ==> #[trigger] self.spec_cross(c, k, x, y) >= 0) || (forall|
            k: int,
        |
            0 <= k < n ==> #[trigger] self.spec_cross(c, k, x, y) <= 0)
    }

    fn cell_contains_point(&self, c: usize, x: i64, y: i64) -> (r: bool)
        requires
            self.wf(),
            c < self.nc(),
            -COORD_LIMIT <= x <= COORD_LIMIT,
            -COORD_LIMIT <= y <= COORD_LIMIT,
        ensures
            r == self.cell_contains(c as int, x, y),
    {
        let cl = &self.cells[c];
        let n = cl.corners.len();
        let mut all_ge: bool = true;
        let mut all_le: bool = true;
        let mut k: usize = 0;
        while k < n
            invariant
                k <= n,
                self.wf(),
                c < self.nc(),
                cl == self.cells@[c as int],
                n == cl.corners@.len(),
                -COORD_LIMIT <= x <= COORD_LIMIT,
                -COORD_LIMIT <= y <= COORD_LIMIT,
                all_ge || all_le,
                all_ge == forall|kk: int| 0 <= kk < k ==> #[trigger] self.spec_cross(
                    c as int,
                    kk,
                    x,
                    y,
                ) >= 0,
                all_le == forall|kk: int| 0 <= kk < k ==> #[trigger] self.spec_cross(
                    c as int,
                    kk,
                    x,
                    y,
                ) <= 0,
            decreases n - k,
        {
            proof {
                assert(self.wf_cell(c as int));
            }
            let ka = cl.corners[k].0;
            let knext = if k + 1 == n {
                0
            } else {
                k + 1
            };
            let kb = cl.corners[knext].0;
            proof {
                assert(self.wf_vertex(ka as int));
                assert(self.wf_vertex(kb as int));
            }
            let a = &self.vertices[ka];
            let b = &self.vertices[kb];
            let dx: i64 = b.x - a.x;
            let du: i64 = y - a.y;
            let dy: i64 = b.y - a.y;
            let dv: i64 = x - a.x;
            proof {
                lemma_abs_mul(dx as int, du as int, 0x4000_0000, 0x8000_0000);
                lemma_abs_mul(dy as int, dv as int, 0x4000_0000, 0x8000_0000);
            }
            let p1: i64 = dx * du;
            let p2: i64 = dy * dv;
            let cross: i64 = p1 - p2;
            proof {
                assert(cross == self.spec_cross(c as int, k as int, x, y));
            }
            if cross > 0 {
                all_le = false;
            }
            if cross < 0 {
                all_ge = false;
            }
            if !all_ge && !all_le {
                return false;
            }
            k = k + 1;
        }
        true
    }

    /// Point location: the lowest-indexed cell whose polygon contains the
    /// query point, or nothing when the point lies in no cell (in
    /// particular, outside the map rectangle).
    pub fn cell_at(&self, x: i64, y: i64) -> (r: Option<CellId>)
        requires
            self.wf(),
            -COORD_LIMIT <= x <= COORD_LIMIT,
            -COORD_LIMIT <= y <= COORD_LIMIT,
        ensures
            match r {
                Some(c) => c.0 < self.nc() && self.cell_contains(c.0 as int, x, y) && forall|
                    j: int,
                | 0 <= j < c.0 ==> !self.cell_contains(j, x, y),
                None => forall|j: int| 0 <= j < self.nc() ==> !self.cell_contains(j, x, y),
            },
    {
        let nc = self.cells.len();
        let mut c: usize = 0;
        while c < nc
            invariant
                c <= nc,
                nc == self.nc(),
                self.wf(),
                -COORD_LIMIT <= x <= COORD_LIMIT,
                -COORD_LIMIT <= y <= COORD_LIMIT,
                forall|j: int| 0 <= j < c ==> !self.cell_contains(j, x, y),
            decreases nc - c,
        {
            if self.cell_contains_point(c, x, y) {
                return Some(CellId(c));
            }
            c = c + 1;
        }
        None
    }

    /// Mesh adjacency is symmetric: whenever `b` is listed among the
    /// neighbors of `a`, `a` is listed among the neighbors of `b`; and
    /// every edge is owned by exactly one cell (on the border) or two.
    pub proof fn lemma_adjacency_symmetric(self, a: int, b: int)
        requires
            self.wf(),
            0 <= a < self.nc(),
            0 <= b < self.nc(),
            self.cell_neighbors_contain(a, b),
        ensures
            self.cell_neighbors_contain(b, a),
            forall|e: int|
                0 <= e < self.ne() ==> 1 <= (#[trigger] self.edges@[e].cells@.len()) <= 2,
    {
        assert forall|e: int|
            0 <= e < self.ne() implies 1 <= (#[trigger] self.edges@[e].cells@.len()) <= 2 by {
            assert(self.wf_edge(e));
        }
    }

    /// Every derived vertex neighbor is itself a valid vertex id.
    pub proof fn lemma_vertex_neighbors_in_range(self, v: int)
        requires
            self.wf(),
            0 <= v < self.nv(),
        ensures
            forall|j: int|
                0 <= j < self.vertices@[v].neighbors@.len()
                    ==> #[trigger] self.vertices@[v].neighbors@[j].0 < self.nv(),
    {
        assert(self.wf_vertex(v));
        assert forall|j: int|
            0 <= j < self.vertices@[v].neighbors@.len()
                implies #[trigger] self.vertices@[v].neighbors@[j].0 < self.nv() by {
            let e = self.vertices@[v].edges@[j].0 as int;
            assert(self.vertices@[v].edges@[j].0 < self.ne());
            assert(self.wf_edge(e));
        };
    }

    /// Decides the whole structural invariant.
    pub fn check_wf(&self) -> (r: bool)
        ensures
            r == self.wf(),
    {
        if !(0 < self.width && self.width <= COORD_LIMIT && 0 < self.height && self.height
            <= COORD_LIMIT) {
            return false;
        }
        if !(0 < self.cells.len() && self.cells.len() <= COUNT_LIMIT) {
            return false;
        }
        if !(0 < self.vertices.len() && self.vertices.len() <= COUNT_LIMIT) {
            return false;
        }
        if !(self.edges.len() <= COUNT_LIMIT) {
            return false;
        }
        let nv = self.vertices.len();
        let mut v: usize = 0;
        while v < nv
            invariant
                v <= nv,
                nv == self.nv(),
                forall|vv: int| 0 <= vv < v ==> self.wf_vertex(vv),
            decreases nv - v,
        {
            if !self.vertex_ok(v) {
                return false;
            }
            v = v + 1;
        }
        let ne = self.edges.len();
        let mut e: usize = 0;
        while e < ne
            invariant
                e <= ne,
                ne == self.ne(),
                forall|ee: int| 0 <= ee < e ==> self.wf_edge(ee),
            decreases ne - e,
        {
            if !self.edge_ok(e) {
                return false;
            }
            e = e + 1;
        }
        let nc = self.cells.len();
        let mut c: usize = 0;
        while c < nc
            invariant
                c <= nc,
                nc == self.nc(),
                forall|cc: int| 0 <= cc < c ==> self.wf_cell(cc),
            decreases nc - c,
        {
            if !self.cell_ok(c) {
                return false;
            }
            c = c + 1;
        }
        if !self.symmetry_ok() {
            return false;
        }
        if !self.edge_adjacency_ok() {
            return false;
        }
        if !self.incidence_ok() {
            return false;
        }
        if !self.vertices_unique_ok() {
            return false;
        }
        if !self.edges_unique_ok() {
            return false;
        }
        true
    }

    fn vertices_unique_ok(&self) -> (r: bool)
        ensures
            r == self.wf_vertex_unique(),
    {
        let nv = self.vertices.len();
        let mut v2: usize = 0;
        while v2 < nv
            invariant
                v2 <= nv,
                nv == self.nv(),
                forall|a: int, b: int|
                    #![trigger self.vertices@[a].x, self.vertices@[b].x]
                    0 <= a < b < v2 ==> !(self.vertices@[a].x == self.vertices@[b].x
                        && self.vertices@[a].y == self.vertices@[b].y),
            decreases nv - v2,
        {
            let mut v1: usize = 0;
            while v1 < v2
                invariant
                    v1 <= v2,
                    v2 < nv,
                    nv == self.nv(),
                    forall|a: int|
                        0 <= a < v1 ==> !(#[trigger] self.vertices@[a].x
                            == self.vertices@[v2 as int].x && self.vertices@[a].y
                            == self.vertices@[v2 as int].y),
                decreases v2 - v1,
            {
                if self.vertices[v1].x == self.vertices[v2].x && self.vertices[v1].y
                    == self.vertices[v2].y {
                    return false;
                }
                v1 = v1 + 1;
            }
            v2 = v2 + 1;
        }
        true
    }

    fn edges_unique_ok(&self) -> (r: bool)
        ensures
            r == self.wf_edge_unique(),
    {
        let ne = self.edges.len();
        let mut e2: usize = 0;
        while e2 < ne
            invariant
                e2 <= ne,
                ne == self.ne(),
                forall|a: int, b: int|
                    #![trigger self.edges@[a].min, self.edges@[b].min]
                    0 <= a < b < e2 ==> !(self.edges@[a].min.0 == self.edges@[b].min.0
                        && self.edges@[a].max.0 == self.edges@[b].max.0),
            decreases ne - e2,
        {
            let mut e1: usize = 0;
            while e1 < e2
                invariant
                    e1 <= e2,
                    e2 < ne,
                    ne == self.ne(),
                    forall|a: int|
                        0 <= a < e1 ==> !((#[trigger] self.edges@[a].min).0
                            == self.edges@[e2 as int].min.0 && self.edges@[a].max.0
                            == self.edges@[e2 as int].max.0),
                decreases e2 - e1,
            {
                if self.edges[e1].min.0 == self.edges[e2].min.0 && self.edges[e1].max.0
                    == self.edges[e2].max.0 {
                    return false;
                }
                e1 = e1 + 1;
            }
            e2 = e2 + 1;
        }
        true
    }

    fn incidence_ok(&self) -> (r: bool)
        requires
            forall|e: int| 0 <= e < self.ne() ==> self.wf_edge(e),
        ensures
            r == self.wf_incidence(),
    {
        let ne = self.edges.len();
        let mut e: usize = 0;
        while e < ne
            invariant
                e <= ne,
                ne == self.ne(),
                forall|ee: int| 0 <= ee < self.ne() ==> self.wf_edge(ee),
                forall|ee: int|
                    0 <= ee < e ==> #[trigger] self.edge_listed_at(self.edges@[ee].min.0 as int, ee)
                        && self.edge_listed_at(self.edges@[ee].max.0 as int, ee),
            decreases ne - e,
        {
            proof {
                assert(self.wf_edge(e as int));
            }
            let mn = self.edges[e].min.0;
            let mx = self.edges[e].max.0;
            let has_mn = contains_edge_id(&self.vertices[mn].edges, e);
            let has_mx = contains_edge_id(&self.vertices[mx].edges, e);
            proof {
                assert(has_mn == self.edge_listed_at(mn as int, e as int));
                assert(has_mx == self.edge_listed_at(mx as int, e as int));
            }
            if !has_mn || !has_mx {
                return false;
            }
            proof {
                assert forall|ee: int|
                    0 <= ee < e + 1 implies #[trigger] self.edge_listed_at(
                    self.edges@[ee].min.0 as int,
                    ee,
                ) && self.edge_listed_at(self.edges@[ee].max.0 as int, ee) by {
                    if ee == e {
                        assert(self.edges@[ee].min.0 == mn && self.edges@[ee].max.0 == mx);
                        assert(self.edge_listed_at(mn as int, ee));
                        assert(self.edge_listed_at(mx as int, ee));
                    }
                };
            }
            e = e + 1;
        }
        true
    }
}

/// True iff some entry of `v` carries the edge index `x`.
pub fn contains_edge_id(v: &Vec<EdgeId>, x: usize) -> (r: bool)
    ensures
        r == exists|j: int| 0 <= j < v@.len() && #[trigger] v@[j].0 == x,
{
    let n = v.len();
    let mut i: usize = 0;
    while i < n
        invariant
            i <= n,
            n == v@.len(),
            forall|j: int| 0 <= j < i ==> #[trigger] v@[j].0 != x,
        decreases n - i,
    {
        if v[i].0 == x {
            return true;
        }
        i = i + 1;
    }
    false
}

} // verus!
