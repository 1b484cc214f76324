//! Drainage and river extraction on a hand-built strip mesh with one
//! clear downhill channel.

use polyworld::fields::{CellData, EdgeData, VertexData};
use polyworld::heightmap::HeightMapBuilder;
use polyworld::hydrology::{HydrologyBuilder, Rivers};
use polyworld::mesh::{EdgeId, PolyMap, VertexId};

/// A single row of five square cells: twelve vertices on two rows.
fn strip_mesh() -> PolyMap {
    let mut polys = Vec::new();
    for i in 0..5i64 {
        let x0 = i * 10;
        polys.push(vec![(x0, 0), (x0 + 10, 0), (x0 + 10, 10), (x0, 10)]);
    }
    PolyMap::build(50, 10, &polys).unwrap()
}

/// Heights descending along the bottom row towards the left; the top row
/// sits high everywhere so every channel drains through the bottom.
fn strip_heights() -> Vec<i64> {
    // Vertex ids in build order:
    // 0:(0,0) 1:(10,0) 2:(10,10) 3:(0,10) 4:(20,0) 5:(20,10)
    // 6:(30,0) 7:(30,10) 8:(40,0) 9:(40,10) 10:(50,0) 11:(50,10)
    vec![100, 200, 810, 800, 300, 820, 400, 830, 500, 840, 600, 850]
}

#[test]
fn one_channel_yields_exactly_one_river_path() {
    let mesh = strip_mesh();
    assert_eq!(mesh.num_vertices(), 12);
    let hb = HeightMapBuilder { vertices: VertexData { data: strip_heights() } };
    let hm = hb.build(&mesh);
    // Flag the five bottom-row edges as carrying flux above the cutoff.
    let mut flux = vec![0i64; mesh.num_edges()];
    for e in 0..mesh.num_edges() {
        let edge = mesh.edge(EdgeId(e));
        let a = mesh.vertex(edge.min);
        let b = mesh.vertex(edge.max);
        if a.y == 0 && b.y == 0 {
            flux[e] = 100;
        }
    }
    let edge_flux = EdgeData { data: flux };
    let water = CellData { data: vec![false; mesh.num_cells()] };
    let rivers = Rivers::compute(&mesh, &hm, &water, &edge_flux, 50);
    assert_eq!(rivers.paths().len(), 1);
    let path = &rivers.paths()[0];
    let ids: Vec<usize> = path.corners().iter().map(|v| v.0).collect();
    assert_eq!(ids, vec![10, 8, 6, 4, 1, 0]);
    assert_eq!(path.source(), VertexId(10));
    assert_eq!(path.sink(), VertexId(0));
    assert!(rivers.is_source(VertexId(10)));
    assert!(rivers.is_sink(VertexId(0)));
    assert!(!rivers.is_source(VertexId(8)));
    assert!(!rivers.is_sink(VertexId(10)));
    // Segment flags match the thresholded bottom row.
    for e in 0..mesh.num_edges() {
        let edge = mesh.edge(EdgeId(e));
        let bottom =
            mesh.vertex(edge.min).y == 0 && mesh.vertex(edge.max).y == 0;
        assert_eq!(rivers.is_segment(EdgeId(e)), bottom);
    }
}

#[test]
fn water_bounded_edges_are_never_rivers() {
    let mesh = strip_mesh();
    let hb = HeightMapBuilder { vertices: VertexData { data: strip_heights() } };
    let hm = hb.build(&mesh);
    let flux = vec![100i64; mesh.num_edges()];
    let edge_flux = EdgeData { data: flux };
    // Every owning cell is water: nothing qualifies.
    let water = CellData { data: vec![true; mesh.num_cells()] };
    let rivers = Rivers::compute(&mesh, &hm, &water, &edge_flux, 50);
    for e in 0..mesh.num_edges() {
        assert!(!rivers.is_segment(EdgeId(e)));
    }
    assert_eq!(rivers.paths().len(), 0);
}

#[test]
fn hydrology_flux_follows_the_descent_graph() {
    let mesh = strip_mesh();
    let hb = HeightMapBuilder { vertices: VertexData { data: strip_heights() } };
    let hm = hb.build(&mesh);
    // One unit of rain on every vertex.
    let rain = vec![1i64; mesh.num_vertices()];
    let hyb = HydrologyBuilder { corner_rainfall: VertexData { data: rain } };
    let water = CellData { data: vec![false; mesh.num_cells()] };
    let hyd = hyb.build(&mesh, &hm, &water, 1_000_000);
    // Total rainfall is twelve units; vertex 0 is the only vertex with no
    // descent, so it collects everything.
    assert_eq!(hyd.vertex_flux(VertexId(0)), 12);
    // The bottom-left edge carries the flux of vertex 1 into vertex 0.
    for e in 0..mesh.num_edges() {
        let edge = mesh.edge(EdgeId(e));
        if edge.min == VertexId(0) && edge.max == VertexId(1) {
            assert_eq!(hyd.edge_flux(EdgeId(e)), hyd.vertex_flux(VertexId(1)));
        }
    }
    // Rainfall averaged per cell is one unit.
    for c in 0..mesh.num_cells() {
        assert_eq!(hyd.cell_rainfall(polyworld::mesh::CellId(c)), 1);
    }
}
