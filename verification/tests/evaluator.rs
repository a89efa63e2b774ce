use ldr2pdf::eval::{traverse, traverse_design, traverse_part, Command, ErrorKind, ModelStore, SubFileRef};
use ldr2pdf::geom::{f32_bits_is_lt_zero, mat_determinant, mat_mul, transform_point, Mat4, Point};
use ldr2pdf::ldr::{GeometryContext, CURRENT_COLOR};
use ldr2pdf::{Poly, Primitive};

fn mat(g: glam::Mat4) -> Mat4 {
    Mat4 { cols: g.to_cols_array().map(f32::to_bits) }
}

fn identity() -> Mat4 {
    mat(glam::Mat4::IDENTITY)
}

fn point(x: f32, y: f32, z: f32) -> Point {
    Point { x: x.to_bits(), y: y.to_bits(), z: z.to_bits() }
}

fn glam_point(p: &Point) -> glam::Vec3 {
    glam::Vec3::new(
        f32::from_bits(p.x),
        f32::from_bits(p.y),
        f32::from_bits(p.z),
    )
}

fn comment(text: &str) -> Command {
    Command::Comment(text.to_owned())
}

fn sub_ref(file: &str, color: u32, matrix: Mat4) -> Command {
    Command::SubFileRef(SubFileRef { file: file.to_owned(), color, matrix })
}

fn tri(verts: [Point; 3], color: u32) -> Command {
    Command::Triangle { vertices: verts, color }
}

fn unit_triangle() -> [Point; 3] {
    [point(0.0, 0.0, 0.0), point(1.0, 0.0, 0.0), point(0.0, 1.0, 0.0)]
}

fn run(store: &ModelStore, name: &str, ctx: GeometryContext) -> Vec<Primitive> {
    let mut out = Vec::new();
    traverse(store, name, ctx, &mut out, 256).expect("evaluation failed");
    out
}

fn tri_points(p: &Primitive) -> [glam::Vec3; 3] {
    match p {
        Primitive::Polygon(Poly::Tri(t), _) => [glam_point(&t[0]), glam_point(&t[1]), glam_point(&t[2])],
        other => panic!("expected a triangle polygon, got {other:?}"),
    }
}

fn poly_color(p: &Primitive) -> u32 {
    match p {
        Primitive::Polygon(_, c) => *c,
        other => panic!("expected a polygon, got {other:?}"),
    }
}

#[test]
fn certified_ccw_triangle_keeps_order() {
    let mut store = ModelStore::new();
    store.add(
        "main".to_owned(),
        vec![comment("BFC CERTIFY CCW"), tri(unit_triangle(), 4)],
    );
    let out = run(&store, "main", GeometryContext::new(identity()));
    assert_eq!(out.len(), 1);
    let pts = tri_points(&out[0]);
    assert_eq!(pts[0], glam::Vec3::new(0.0, 0.0, 0.0));
    assert_eq!(pts[1], glam::Vec3::new(1.0, 0.0, 0.0));
    assert_eq!(pts[2], glam::Vec3::new(0.0, 1.0, 0.0));
}

#[test]
fn certified_ccw_quad_triangulates_in_order() {
    let a = point(0.0, 0.0, 0.0);
    let b = point(1.0, 0.0, 0.0);
    let c = point(1.0, 1.0, 0.0);
    let d = point(0.0, 1.0, 0.0);
    let mut store = ModelStore::new();
    store.add(
        "main".to_owned(),
        vec![
            comment("BFC CERTIFY CCW"),
            Command::Quad { vertices: [a, b, c, d], color: 4 },
        ],
    );
    let out = run(&store, "main", GeometryContext::new(identity()));
    assert_eq!(out.len(), 2);
    let t0 = tri_points(&out[0]);
    let t1 = tri_points(&out[1]);
    assert_eq!(t0, [glam_point(&a), glam_point(&b), glam_point(&c)]);
    assert_eq!(t1, [glam_point(&c), glam_point(&d), glam_point(&a)]);
}

#[test]
fn certified_cw_triangle_reverses() {
    let mut store = ModelStore::new();
    store.add(
        "main".to_owned(),
        vec![comment("BFC CERTIFY CW"), tri(unit_triangle(), 4)],
    );
    let out = run(&store, "main", GeometryContext::new(identity()));
    let pts = tri_points(&out[0]);
    assert_eq!(pts[0], glam::Vec3::new(0.0, 1.0, 0.0));
    assert_eq!(pts[1], glam::Vec3::new(1.0, 0.0, 0.0));
    assert_eq!(pts[2], glam::Vec3::new(0.0, 0.0, 0.0));
}

#[test]
fn invert_next_applies_to_one_subtree_only() {
    let mut store = ModelStore::new();
    store.add(
        "leaf".to_owned(),
        vec![comment("BFC CERTIFY CCW"), tri(unit_triangle(), 4)],
    );
    store.add(
        "main".to_owned(),
        vec![
            comment("BFC INVERTNEXT"),
            sub_ref("leaf", 16, identity()),
            sub_ref("leaf", 16, identity()),
        ],
    );
    let out = run(&store, "main", GeometryContext::new(identity()));
    assert_eq!(out.len(), 2);
    // The marked subtree is inverted.
    let t0 = tri_points(&out[0]);
    assert_eq!(t0[0], glam::Vec3::new(0.0, 1.0, 0.0));
    assert_eq!(t0[2], glam::Vec3::new(0.0, 0.0, 0.0));
    // The sibling evaluated afterwards is untouched.
    let t1 = tri_points(&out[1]);
    assert_eq!(t1[0], glam::Vec3::new(0.0, 0.0, 0.0));
    assert_eq!(t1[2], glam::Vec3::new(0.0, 1.0, 0.0));
}

#[test]
fn single_mirror_reverses_winding() {
    let mirror = mat(glam::Mat4::from_scale(glam::Vec3::new(-1.0, 1.0, 1.0)));
    let mut store = ModelStore::new();
    store.add(
        "leaf".to_owned(),
        vec![comment("BFC CERTIFY CCW"), tri(unit_triangle(), 4)],
    );
    store.add("main".to_owned(), vec![sub_ref("leaf", 16, mirror)]);
    let out = run(&store, "main", GeometryContext::new(identity()));
    let t = tri_points(&out[0]);
    // Mirrored x, emitted in reversed order.
    assert_eq!(t[0], glam::Vec3::new(0.0, 1.0, 0.0));
    assert_eq!(t[1], glam::Vec3::new(-1.0, 0.0, 0.0));
    assert_eq!(t[2], glam::Vec3::new(0.0, 0.0, 0.0));
}

#[test]
fn nested_mirrors_cancel() {
    let mirror_x = mat(glam::Mat4::from_scale(glam::Vec3::new(-1.0, 1.0, 1.0)));
    let mirror_y = mat(glam::Mat4::from_scale(glam::Vec3::new(1.0, -1.0, 1.0)));
    let mut store = ModelStore::new();
    store.add(
        "leaf".to_owned(),
        vec![comment("BFC CERTIFY CCW"), tri(unit_triangle(), 4)],
    );
    store.add("mid".to_owned(), vec![sub_ref("leaf", 16, mirror_y)]);
    store.add("main".to_owned(), vec![sub_ref("mid", 16, mirror_x)]);
    let out = run(&store, "main", GeometryContext::new(identity()));
    let t = tri_points(&out[0]);
    // Both axes mirrored, but the windings cancel: original order.
    assert_eq!(t[0], glam::Vec3::new(0.0, 0.0, 0.0));
    assert_eq!(t[1], glam::Vec3::new(-1.0, 0.0, 0.0));
    assert_eq!(t[2], glam::Vec3::new(0.0, -1.0, 0.0));
}

#[test]
fn color_inherits_through_three_levels() {
    let mut store = ModelStore::new();
    store.add(
        "leaf".to_owned(),
        vec![comment("BFC CERTIFY CCW"), tri(unit_triangle(), CURRENT_COLOR)],
    );
    store.add("mid2".to_owned(), vec![sub_ref("leaf", CURRENT_COLOR, identity())]);
    store.add("mid1".to_owned(), vec![sub_ref("mid2", CURRENT_COLOR, identity())]);
    store.add("main".to_owned(), vec![sub_ref("mid1", 14, identity())]);
    let out = run(&store, "main", GeometryContext::new(identity()));
    assert_eq!(poly_color(&out[0]), 14);
}

#[test]
fn explicit_color_wins_over_inherited() {
    let mut store = ModelStore::new();
    store.add(
        "leaf".to_owned(),
        vec![comment("BFC CERTIFY CCW"), tri(unit_triangle(), 2)],
    );
    store.add("main".to_owned(), vec![sub_ref("leaf", 14, identity())]);
    let out = run(&store, "main", GeometryContext::new(identity()));
    assert_eq!(poly_color(&out[0]), 2);
}

#[test]
fn reference_scenario_single_transformed_triangle() {
    // Model "A" holds one reference to "B" with color 7 and matrix M;
    // model "B" is certified counter-clockwise and holds one triangle with
    // the inherit sentinel.  Evaluating "A" from an identity root yields
    // exactly one polygon with vertices M times each original vertex, in
    // order, with color 7.
    let m = glam::Mat4::from_translation(glam::Vec3::new(3.0, -2.0, 1.0))
        * glam::Mat4::from_rotation_y(0.5);
    let mut store = ModelStore::new();
    store.add(
        "B".to_owned(),
        vec![comment("BFC CERTIFY CCW"), tri(unit_triangle(), CURRENT_COLOR)],
    );
    store.add("A".to_owned(), vec![sub_ref("B", 7, mat(m))]);
    let out = run(&store, "A", GeometryContext::new(identity()));
    assert_eq!(out.len(), 1);
    assert_eq!(poly_color(&out[0]), 7);
    let t = tri_points(&out[0]);
    assert_eq!(t[0], m.transform_point3(glam::Vec3::new(0.0, 0.0, 0.0)));
    assert_eq!(t[1], m.transform_point3(glam::Vec3::new(1.0, 0.0, 0.0)));
    assert_eq!(t[2], m.transform_point3(glam::Vec3::new(0.0, 1.0, 0.0)));
}

#[test]
fn cycle_reports_too_deep() {
    let mut store = ModelStore::new();
    store.add("A".to_owned(), vec![sub_ref("B", 16, identity())]);
    store.add("B".to_owned(), vec![sub_ref("A", 16, identity())]);
    let mut out = Vec::new();
    let err = traverse(&store, "A", GeometryContext::new(identity()), &mut out, 256)
        .expect_err("a cycle must not evaluate");
    assert_eq!(err.kind, ErrorKind::TooDeep);
}

#[test]
fn missing_model_is_reported() {
    let store = ModelStore::new();
    let mut out = Vec::new();
    let err = traverse(&store, "nowhere", GeometryContext::new(identity()), &mut out, 256)
        .expect_err("a missing model must not evaluate");
    assert_eq!(err.kind, ErrorKind::MissingModel);
    assert_eq!(err.model, "nowhere");
}

#[test]
fn unknown_certification_is_fatal() {
    let mut store = ModelStore::new();
    store.add(
        "main".to_owned(),
        vec![comment("BFC CERTIFY CCWX"), tri(unit_triangle(), 4)],
    );
    let mut out = Vec::new();
    let err = traverse(&store, "main", GeometryContext::new(identity()), &mut out, 256)
        .expect_err("a malformed certification must not evaluate");
    assert_eq!(err.kind, ErrorKind::BadCertify);
    assert_eq!(err.index, 0);
}

#[test]
fn pending_invert_at_polygon_is_fatal() {
    let mut store = ModelStore::new();
    store.add(
        "main".to_owned(),
        vec![comment("BFC INVERTNEXT"), tri(unit_triangle(), 4)],
    );
    let mut out = Vec::new();
    let err = traverse(&store, "main", GeometryContext::new(identity()), &mut out, 256)
        .expect_err("a pending inversion must not reach a polygon");
    assert_eq!(err.kind, ErrorKind::PendingInvert);
    assert_eq!(err.index, 1);
}

#[test]
fn lines_emit_unconditionally() {
    let a = point(0.0, 0.0, 0.0);
    let b = point(1.0, 1.0, 1.0);
    let mut store = ModelStore::new();
    store.add(
        "main".to_owned(),
        vec![
            comment("BFC CERTIFY CW"),
            Command::Line { vertices: [a, b] },
            Command::OptLine { vertices: [a, b], control: [b, a] },
        ],
    );
    let out = run(&store, "main", GeometryContext::new(identity()));
    assert_eq!(out.len(), 2);
    for p in &out {
        match p {
            Primitive::Line(l) => {
                assert_eq!(glam_point(&l[0]), glam::Vec3::new(0.0, 0.0, 0.0));
                assert_eq!(glam_point(&l[1]), glam::Vec3::new(1.0, 1.0, 1.0));
            }
            other => panic!("expected a line, got {other:?}"),
        }
    }
}

#[test]
fn traverse_part_splits_triangles_and_lines() {
    let a = point(0.0, 0.0, 0.0);
    let b = point(1.0, 0.0, 0.0);
    let mut store = ModelStore::new();
    store.add(
        "main".to_owned(),
        vec![
            comment("BFC CERTIFY CCW"),
            tri(unit_triangle(), 4),
            Command::Line { vertices: [a, b] },
        ],
    );
    let mut triangles = Vec::new();
    let mut lines = Vec::new();
    traverse_part(
        &store,
        "main",
        GeometryContext::new(identity()),
        &mut triangles,
        &mut lines,
        256,
    )
    .expect("evaluation failed");
    assert_eq!(triangles.len(), 1);
    assert_eq!(lines.len(), 1);
    assert_eq!(glam_point(&triangles[0][1]), glam::Vec3::new(1.0, 0.0, 0.0));
    assert_eq!(glam_point(&lines[0][1]), glam::Vec3::new(1.0, 0.0, 0.0));
}

#[test]
fn design_walk_instances_leaf_parts() {
    let shift = glam::Mat4::from_translation(glam::Vec3::new(0.0, 4.0, 0.0));
    let mut store = ModelStore::new();
    store.add("sub".to_owned(), vec![sub_ref("3005.dat", CURRENT_COLOR, mat(shift))]);
    store.add(
        "main".to_owned(),
        vec![sub_ref("3005.dat", 4, identity()), sub_ref("sub", 1, identity())],
    );
    let mut parts = Vec::new();
    traverse_design(&store, "main", GeometryContext::new(identity()), &mut parts, 256)
        .expect("walk failed");
    assert_eq!(parts.len(), 2);
    assert_eq!(parts[0].id, "3005.dat");
    assert_eq!(parts[0].color, 4);
    assert_eq!(parts[1].id, "3005.dat");
    assert_eq!(parts[1].color, 1);
    let got = glam::Mat4::from_cols_array(&parts[1].transform.cols.map(f32::from_bits));
    assert_eq!(got, shift);
}

#[test]
fn design_walk_refuses_loose_geometry() {
    let mut store = ModelStore::new();
    store.add("main".to_owned(), vec![tri(unit_triangle(), 4)]);
    let mut parts = Vec::new();
    let err = traverse_design(&store, "main", GeometryContext::new(identity()), &mut parts, 256)
        .expect_err("geometry outside leaf parts must not instance");
    assert_eq!(err.kind, ErrorKind::UnexpectedGeometry);
}

#[test]
fn store_lookup_prefers_first_entry() {
    let mut store = ModelStore::new();
    store.add("m".to_owned(), vec![comment("first")]);
    store.add("m".to_owned(), vec![comment("second"), comment("second")]);
    assert_eq!(store.get("m").expect("present").len(), 1);
    assert!(store.get("absent").is_none());
}

#[test]
fn context_composition_matches_reference_arithmetic() {
    let ga = glam::Mat4::from_rotation_x(1.25);
    let gb = glam::Mat4::from_translation(glam::Vec3::new(1.0, 2.0, 3.0));
    let product = mat_mul(&mat(ga), &mat(gb));
    assert_eq!(product.cols, mat(ga * gb).cols);

    let ctx = GeometryContext::new(mat(ga));
    let child = ctx.child(&mat(gb), 16, true);
    assert_eq!(child.transform.cols, mat(ga * gb).cols);
    assert_eq!(child.color, CURRENT_COLOR);
    assert!(child.inverted);

    let p = point(0.5, -0.5, 2.0);
    let projected = transform_point(&mat(ga), &p);
    assert_eq!(
        glam_point(&projected),
        ga.transform_point3(glam::Vec3::new(0.5, -0.5, 2.0))
    );
}

#[test]
fn determinant_sign_is_read_from_bits() {
    let mirror = mat(glam::Mat4::from_scale(glam::Vec3::new(-1.0, 1.0, 1.0)));
    assert!(f32_bits_is_lt_zero(mat_determinant(&mirror)));
    let plain = identity();
    assert!(!f32_bits_is_lt_zero(mat_determinant(&plain)));
    assert!(!f32_bits_is_lt_zero(0.0f32.to_bits()));
    assert!(!f32_bits_is_lt_zero((-0.0f32).to_bits()));
    assert!(f32_bits_is_lt_zero((-7.5f32).to_bits()));
    assert!(!f32_bits_is_lt_zero(f32::NAN.to_bits()));
    assert!(f32_bits_is_lt_zero(f32::NEG_INFINITY.to_bits()));
}

#[test]
fn root_context_starts_inheriting() {
    let ctx = GeometryContext::new(identity());
    assert_eq!(ctx.color, CURRENT_COLOR);
    assert!(!ctx.inverted);
    assert_eq!(ctx.transform.cols, identity().cols);
}

#[test]
fn project_maps_every_vertex() {
    let m = glam::Mat4::from_translation(glam::Vec3::new(1.0, 2.0, 3.0));
    let ctx = GeometryContext::new(mat(m));
    let pts = vec![point(0.0, 0.0, 0.0), point(1.0, 1.0, 1.0)];
    let got = ctx.project(&pts);
    assert_eq!(got.len(), 2);
    assert_eq!(glam_point(&got[0]), glam::Vec3::new(1.0, 2.0, 3.0));
    assert_eq!(glam_point(&got[1]), glam::Vec3::new(2.0, 3.0, 4.0));
}
