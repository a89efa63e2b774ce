//! Evaluator for a hierarchical CAD part-reference format.
//!
//! A document is a tree of named models, each an ordered list of drawing
//! commands.  The evaluator walks that tree, composing affine transforms,
//! inherited colors and back-face-culling winding state, and emits a flat
//! sequence of world-space primitives in document order.

use vstd::prelude::*;

pub mod eval;
pub mod geom;
pub mod instruction;
pub mod laws;
pub mod ldr;
pub mod pdf;
pub mod resolver;
pub mod text;

verus! {

use crate::geom::Point;
use crate::ldr::ColorCode;

/// A filled polygon: a triangle or a quadrilateral, vertices in draw order.
#[derive(Clone, Copy, PartialEq, Eq, Debug)]
pub enum Poly {
    Tri([Point; 3]),
    Quad([Point; 4]),
}

impl Poly {
    /// The vertices in draw order.
    pub fn as_slice(&self) -> (r: &[Point])
        ensures
            r@ == self.vertices(),
    {
        match self {
            Poly::Tri(s) => s.as_slice(),
            Poly::Quad(s) => s.as_slice(),
        }
    }

    /// The vertices in draw order, as a sequence.
    pub open spec fn vertices(self) -> Seq<Point> {
        match self {
            Poly::Tri(s) => s@,
            Poly::Quad(s) => s@,
        }
    }
}

/// A world-space drawable primitive, ready for a sink.
#[derive(Clone, Copy, PartialEq, Eq, Debug)]
pub enum Primitive {
    /// A stroked segment; segments carry no color of their own.
    Line([Point; 2]),
    /// A filled polygon with its resolved color code.
    Polygon(Poly, ColorCode),
}

impl Primitive {
    /// The vertices of the primitive in draw order.
    pub fn as_slice(&self) -> (r: &[Point])
        ensures
            r@ == self.vertices(),
    {
        match self {
            Primitive::Line(l) => l.as_slice(),
            Primitive::Polygon(p, _) => p.as_slice(),
        }
    }

    /// The vertices of the primitive, as a sequence.
    pub open spec fn vertices(self) -> Seq<Point> {
        match self {
            Primitive::Line(l) => l@,
            Primitive::Polygon(p, _) => p.vertices(),
        }
    }
}

} // verus!
