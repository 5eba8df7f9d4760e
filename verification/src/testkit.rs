//! Shared fixtures for exercising the library.

use vstd::prelude::*;
use crate::complex::Complex;
use crate::field::FractalField;
use crate::graphedge::GraphEdge;
use crate::vec3::Vec3;

verus! {

/// A canonical, non-trivial field for consistent checks: three unit edges
/// along the x, y and z axes whose payloads are the real unit, the
/// imaginary unit, and their sum.
pub fn canonical_test_fractal() -> (r: FractalField)
    ensures
        r.edges@.len() == 3,
        r.edges@[0] == (GraphEdge {
            origin: Vec3 { x: 0, y: 0, z: 0 },
            direction: Vec3 { x: 100, y: 0, z: 0 },
            length: 100,
            depth: 0,
            data: Complex { re: 100, im: 0 },
        }),
        r.edges@[1] == (GraphEdge {
            origin: Vec3 { x: 0, y: 0, z: 0 },
            direction: Vec3 { x: 0, y: 100, z: 0 },
            length: 100,
            depth: 0,
            data: Complex { re: 0, im: 100 },
        }),
        r.edges@[2] == (GraphEdge {
            origin: Vec3 { x: 0, y: 0, z: 0 },
            direction: Vec3 { x: 0, y: 0, z: 100 },
            length: 100,
            depth: 0,
            data: Complex { re: 100, im: 100 },
        }),
{
    let origin = Vec3::zero();
    let mut edges: Vec<GraphEdge> = Vec::new();
    edges.push(GraphEdge {
        origin,
        direction: Vec3::unit_x(),
        length: 100,
        depth: 0,
        data: Complex::new(100, 0),
    });
    edges.push(GraphEdge {
        origin,
        direction: Vec3::unit_y(),
        length: 100,
        depth: 0,
        data: Complex::new(0, 100),
    });
    edges.push(GraphEdge {
        origin,
        direction: Vec3::unit_z(),
        length: 100,
        depth: 0,
        data: Complex::new(100, 100),
    });
    FractalField { edges }
}

} // verus!
