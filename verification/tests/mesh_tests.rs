//! Mesh construction, adjacency and point location on hand-built grids.

use polyworld::mesh::{CellId, PolyMap};

/// A grid of square cells covering `[0, nx*side] x [0, ny*side]`.
fn grid_polys(nx: i64, ny: i64, side: i64) -> Vec<Vec<(i64, i64)>> {
    let mut polys = Vec::new();
    for j in 0..ny {
        for i in 0..nx {
            let x0 = i * side;
            let y0 = j * side;
            polys.push(vec![
                (x0, y0),
                (x0 + side, y0),
                (x0 + side, y0 + side),
                (x0, y0 + side),
            ]);
        }
    }
    polys
}

#[test]
fn build_square_grid_counts() {
    let polys = grid_polys(2, 2, 10);
    let mesh = PolyMap::build(20, 20, &polys).unwrap();
    assert_eq!(mesh.num_cells(), 4);
    assert_eq!(mesh.num_vertices(), 9);
    assert_eq!(mesh.num_edges(), 12);
    assert!(mesh.check_wf());
}

#[test]
fn adjacency_is_symmetric_and_edges_owned_once_or_twice() {
    let polys = grid_polys(3, 3, 10);
    let mesh = PolyMap::build(30, 30, &polys).unwrap();
    for c in 0..mesh.num_cells() {
        let cell = mesh.cell(CellId(c));
        for nb in cell.neighbors.iter() {
            let other = mesh.cell(*nb);
            assert!(other.neighbors.iter().any(|x| x.0 == c));
            assert_ne!(nb.0, c);
        }
    }
    for e in 0..mesh.num_edges() {
        let edge = mesh.edge(polyworld::mesh::EdgeId(e));
        let owners = edge.cells.len();
        assert!(owners == 1 || owners == 2);
        if owners == 1 {
            // A singly-owned edge lies on the map border.
            assert!(mesh.vertex(edge.min).is_border);
            assert!(mesh.vertex(edge.max).is_border);
        }
    }
}

#[test]
fn border_flags_follow_the_rectangle() {
    let polys = grid_polys(3, 3, 10);
    let mesh = PolyMap::build(30, 30, &polys).unwrap();
    for v in 0..mesh.num_vertices() {
        let vt = mesh.vertex(polyworld::mesh::VertexId(v));
        let expected = vt.x == 0 || vt.y == 0 || vt.x == 30 || vt.y == 30;
        assert_eq!(vt.is_border, expected);
    }
    // The center cell of a 3x3 grid is the only interior cell.
    let borders = mesh.borders();
    assert_eq!(borders.len(), 8);
    assert!(!mesh.cell(CellId(4)).is_border);
}

#[test]
fn point_location_finds_the_right_cell() {
    let polys = grid_polys(2, 2, 10);
    let mesh = PolyMap::build(20, 20, &polys).unwrap();
    assert_eq!(mesh.cell_at(5, 5), Some(CellId(0)));
    assert_eq!(mesh.cell_at(15, 5), Some(CellId(1)));
    assert_eq!(mesh.cell_at(5, 15), Some(CellId(2)));
    assert_eq!(mesh.cell_at(15, 15), Some(CellId(3)));
    assert_eq!(mesh.cell_at(-5, -5), None);
    assert_eq!(mesh.cell_at(25, 5), None);
}

#[test]
fn degenerate_polygons_are_rejected() {
    // Two distinct points cannot close a polygon.
    let polys = vec![vec![(0, 0), (10, 0)]];
    assert!(PolyMap::build(10, 10, &polys).is_err());
    // A point outside the rectangle is rejected.
    let polys2 = vec![vec![(0, 0), (15, 0), (15, 10), (0, 10)]];
    assert!(PolyMap::build(10, 10, &polys2).is_err());
    // No polygons at all leave an empty mesh, which is refused.
    let polys3: Vec<Vec<(i64, i64)>> = Vec::new();
    assert!(PolyMap::build(10, 10, &polys3).is_err());
}

#[test]
fn element_set_collects_cell_boundary() {
    let polys = grid_polys(2, 2, 10);
    let mesh = PolyMap::build(20, 20, &polys).unwrap();
    let mut set = polyworld::element_set::ElementSet::new();
    set.add_cell(CellId(0), &mesh);
    assert_eq!(set.cells.len(), 1);
    assert_eq!(set.edges.len(), 4);
    assert_eq!(set.corners.len(), 4);
    let mut other = polyworld::element_set::ElementSet::new();
    other.add_cell(CellId(1), &mesh);
    set.join(&other);
    // The two cells share one edge and two corners.
    assert_eq!(set.cells.len(), 2);
    assert_eq!(set.edges.len(), 7);
    assert_eq!(set.corners.len(), 6);
    set.clear();
    assert_eq!(set.cells.len(), 0);
}
