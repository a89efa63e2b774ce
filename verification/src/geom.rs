//! Geometry carried as raw bit patterns.
//!
//! Coordinates and matrix entries are IEEE 754 single-precision values, but
//! the evaluator never computes with them: it only composes transforms,
//! projects vertices and tests a determinant's sign.  Each value is therefore
//! held as its 32-bit pattern, the arithmetic itself is delegated to `glam`
//! behind trusted wrappers whose results are named, and the one numeric
//! decision the evaluator makes — "is this determinant negative?" — is taken
//! here, in verified code, directly on the bit pattern.

use vstd::prelude::*;

verus! {

/// A point or vector: the bit patterns of three single-precision coordinates.
#[derive(Clone, Copy, PartialEq, Eq, Structural, Debug)]
pub struct Point {
    pub x: u32,
    pub y: u32,
    pub z: u32,
}

impl Point {
    pub fn new(x: u32, y: u32, z: u32) -> (r: Point)
        ensures
            r == (Point { x, y, z }),
    {
        Point { x, y, z }
    }

    /// The three coordinate bit patterns as a sequence.
    pub open spec fn bits(self) -> Seq<u32> {
        seq![self.x, self.y, self.z]
    }
}

/// A 4x4 affine transform: the bit patterns of its sixteen single-precision
/// entries, in column-major order.
#[derive(Clone, Copy, PartialEq, Eq, Debug)]
pub struct Mat4 {
    pub cols: [u32; 16],
}

impl Mat4 {
    pub fn from_cols_array(cols: [u32; 16]) -> (r: Mat4)
        ensures
            r == (Mat4 { cols }),
    {
        Mat4 { cols }
    }

    /// The sixteen entry bit patterns, column-major.
    pub open spec fn bits(self) -> Seq<u32> {
        self.cols@
    }
}

/// The entries of the matrix product of two transforms, column-major.
pub uninterp spec fn mat_mul_bits(a: Seq<u32>, b: Seq<u32>) -> Seq<u32>;

/// The coordinates of a point transformed by an affine matrix.
pub uninterp spec fn transform_point_bits(m: Seq<u32>, p: Seq<u32>) -> Seq<u32>;

/// One projected vertex: the world-space point whose coordinate bit
/// patterns [`transform_point_bits`] gives.
pub open spec fn project_view(m: Seq<u32>, p: Point) -> Point {
    let tb = transform_point_bits(m, p.bits());
    Point { x: tb[0], y: tb[1], z: tb[2] }
}

/// The determinant of a transform.
pub uninterp spec fn determinant_bits(m: Seq<u32>) -> u32;

/// Whether a bit pattern denotes a single-precision value strictly below
/// zero.  Those are exactly the patterns with the sign bit set whose
/// magnitude is neither zero nor a NaN payload: the patterns strictly
/// between negative zero (`0x8000_0000`) and negative infinity
/// (`0xFF80_0000`), the latter included.
pub open spec fn f32_bits_lt_zero(b: u32) -> bool {
    0x8000_0000u32 < b <= 0xFF80_0000u32
}

/// Exec mirror of [`f32_bits_lt_zero`].
pub fn f32_bits_is_lt_zero(b: u32) -> (r: bool)
    ensures
        r == f32_bits_lt_zero(b),
{
    0x8000_0000u32 < b && b <= 0xFF80_0000u32
}

/// Relies on `glam::Mat4` multiplication: the product's entries are a
/// function of the operands' entries alone.
#[verifier::external_body]
pub fn mat_mul(a: &Mat4, b: &Mat4) -> (r: Mat4)
    ensures
        r.bits() == mat_mul_bits(a.bits(), b.bits()),
{
    let ga: glam::Mat4 = bytemuck::cast(a.cols);
    let gb: glam::Mat4 = bytemuck::cast(b.cols);
    Mat4 { cols: bytemuck::cast(ga * gb) }
}

/// Relies on `glam::Mat4::transform_point3`: the projected coordinates are a
/// function of the matrix and point entries alone.
#[verifier::external_body]
pub fn transform_point(m: &Mat4, p: &Point) -> (r: Point)
    ensures
        r.bits() == transform_point_bits(m.bits(), p.bits()),
{
    let gm: glam::Mat4 = bytemuck::cast(m.cols);
    let gp: glam::Vec3 = bytemuck::cast([p.x, p.y, p.z]);
    let [x, y, z]: [u32; 3] = bytemuck::cast(gm.transform_point3(gp));
    Point { x, y, z }
}

/// Relies on `glam::Mat4::determinant`: the determinant is a function of the
/// matrix entries alone.
#[verifier::external_body]
pub fn mat_determinant(m: &Mat4) -> (r: u32)
    ensures
        r == determinant_bits(m.bits()),
{
    let gm: glam::Mat4 = bytemuck::cast(m.cols);
    bytemuck::cast(gm.determinant())
}

} // verus!
