//! Laws of the evaluator, stated and proved against the specification
//! functions of [`crate::eval`].

use vstd::prelude::*;

use crate::eval::{eval_cmds, eval_model, leaf_emits, lookup, Command, ErrView, ErrorKind, Model};
use crate::geom::{determinant_bits, f32_bits_lt_zero, mat_mul_bits};
use crate::ldr::{child_view, resolve_color, ColorCode, CtxView, Winding, CURRENT_COLOR};
use crate::text::{seq_contains, seq_starts_with};
use crate::Primitive;

verus! {

/// A command that draws or is ignored: anything but a comment and a
/// sub-file reference.
pub open spec fn is_drawing_cmd(c: Command) -> bool {
    c is Line || c is OptLine || c is Triangle || c is Quad || c is Other
}

/// A body of leaf commands only: no comments, no references.
pub open spec fn leaf_only(cmds: Seq<Command>) -> bool {
    forall|i: int| 0 <= i < cmds.len() ==> is_drawing_cmd(#[trigger] cmds[i])
}

/// What a leaf-only body emits when nothing reverses it: each command's
/// primitives in original vertex order, concatenated in document order.
pub open spec fn emits_in_order(cmds: Seq<Command>, m: Seq<u32>, color: ColorCode) -> Seq<Primitive>
    decreases cmds.len(),
{
    if cmds.len() == 0 {
        Seq::<Primitive>::empty()
    } else {
        leaf_emits(cmds[0], m, color, true) + emits_in_order(cmds.drop_first(), m, color)
    }
}

/// Under counter-clockwise winding with no inversion in effect, a leaf-only
/// body evaluates without error and emits every triangle with unchanged
/// vertex order and every quadrilateral `[a, b, c, d]` as the triangles
/// `[a, b, c]` and `[c, d, a]` — that is what `leaf_emits` with effective
/// order `true` says.
pub proof fn lemma_leaf_body_in_order(
    models: Seq<Model>,
    name: Seq<char>,
    cmds: Seq<Command>,
    pos: int,
    ctx: CtxView,
    fuel: nat,
)
    requires
        leaf_only(cmds),
        ctx.inverted == false,
        !f32_bits_lt_zero(determinant_bits(ctx.transform)),
    ensures
        eval_cmds(models, name, cmds, pos, ctx, Winding::Ccw, false, false, fuel) == (
            emits_in_order(cmds, ctx.transform, ctx.color),
            None::<ErrView>,
        ),
    decreases cmds.len(),
{
    if cmds.len() == 0 {
    } else {
        assert(is_drawing_cmd(cmds[0]));
        assert(forall|i: int|
            0 <= i < cmds.drop_first().len() ==> #[trigger] cmds.drop_first()[i] == cmds[i + 1]);
        lemma_leaf_body_in_order(models, name, cmds.drop_first(), pos + 1, ctx, fuel);
    }
}

/// A model whose body opens with a `BFC CERTIFY CCW` certification and then
/// holds leaf commands only, evaluated under a context with no accumulated
/// inversion and a net transform whose determinant is not negative — an
/// identity root transform in particular — emits every polygon in original
/// order: triangles keep their vertex order, and each quadrilateral
/// `[a, b, c, d]` becomes the triangles `[a, b, c]` and `[c, d, a]`.
pub proof fn lemma_certified_ccw_in_order(
    models: Seq<Model>,
    name: Seq<char>,
    cmds: Seq<Command>,
    ctx: CtxView,
    fuel: nat,
)
    requires
        lookup(models, name) == Some(cmds),
        cmds.len() >= 1,
        cmds[0] is Comment,
        (cmds[0]->Comment_0)@ == "BFC CERTIFY CCW"@,
        leaf_only(cmds.drop_first()),
        ctx.inverted == false,
        !f32_bits_lt_zero(determinant_bits(ctx.transform)),
    ensures
        eval_model(models, name, ctx, fuel) == (
            emits_in_order(cmds.drop_first(), ctx.transform, ctx.color),
            None::<ErrView>,
        ),
{
    let text = (cmds[0]->Comment_0)@;
    reveal_strlit("BFC CERTIFY CCW");
    reveal_strlit("BFC CERTIFY");
    assert(seq_starts_with(text, "BFC CERTIFY"@)) by {
        assert(text.subrange(0, 11) =~= "BFC CERTIFY"@);
    }
    lemma_leaf_body_in_order(models, name, cmds.drop_first(), 1, ctx, fuel);
    assert(emits_in_order(cmds.drop_first(), ctx.transform, ctx.color) + Seq::<
        Primitive,
    >::empty() =~= emits_in_order(cmds.drop_first(), ctx.transform, ctx.color));
}

/// A one-shot `BFC INVERTNEXT` marker inverts only the subtree of the very
/// next reference: that reference descends with the frame's accumulated
/// inversion flipped once, while a sibling reference evaluated right after
/// it in the same body descends with the accumulated inversion unchanged,
/// and the rest of the body continues with no pending inversion.
pub proof fn lemma_invert_next_scope(
    models: Seq<Model>,
    name: Seq<char>,
    cmds: Seq<Command>,
    pos: int,
    ctx: CtxView,
    winding: Winding,
    inverted: bool,
    fuel: nat,
)
    requires
        cmds.len() >= 3,
        cmds[0] is Comment,
        !seq_starts_with((cmds[0]->Comment_0)@, "BFC CERTIFY"@),
        seq_contains((cmds[0]->Comment_0)@, "BFC INVERTNEXT"@),
        cmds[1] is SubFileRef,
        cmds[2] is SubFileRef,
        fuel > 0,
    ensures
        ({
            let r1 = cmds[1]->SubFileRef_0;
            let r2 = cmds[2]->SubFileRef_0;
            let seeded = child_view(ctx, r1.matrix.bits(), r1.color, true);
            let sibling = child_view(ctx, r2.matrix.bits(), r2.color, false);
            let (s1, e1) = eval_model(models, r1.file@, seeded, (fuel - 1) as nat);
            let (s2, e2) = eval_model(models, r2.file@, sibling, (fuel - 1) as nat);
            let (rest, rest_err) = eval_cmds(
                models,
                name,
                cmds.skip(3),
                pos + 3,
                ctx,
                winding,
                inverted,
                false,
                fuel,
            );
            &&& seeded.inverted == !ctx.inverted
            &&& sibling.inverted == ctx.inverted
            &&& (e1 is None && e2 is None ==> eval_cmds(
                models,
                name,
                cmds,
                pos,
                ctx,
                winding,
                inverted,
                false,
                fuel,
            ) == (s1 + s2 + rest, rest_err))
        }),
{
    let r1 = cmds[1]->SubFileRef_0;
    let r2 = cmds[2]->SubFileRef_0;
    let seeded = child_view(ctx, r1.matrix.bits(), r1.color, true);
    let sibling = child_view(ctx, r2.matrix.bits(), r2.color, false);
    let (s1, e1) = eval_model(models, r1.file@, seeded, (fuel - 1) as nat);
    let (s2, e2) = eval_model(models, r2.file@, sibling, (fuel - 1) as nat);
    assert(cmds.drop_first()[0] == cmds[1]);
    assert(cmds.drop_first().drop_first() =~= cmds.skip(2));
    assert(cmds.skip(2)[0] == cmds[2]);
    assert(cmds.skip(2).drop_first() =~= cmds.skip(3));
    let whole = eval_cmds(models, name, cmds, pos, ctx, winding, inverted, false, fuel);
    let after_marker = eval_cmds(
        models,
        name,
        cmds.drop_first(),
        pos + 1,
        ctx,
        winding,
        inverted,
        true,
        fuel,
    );
    let after_first = eval_cmds(
        models,
        name,
        cmds.skip(2),
        pos + 2,
        ctx,
        winding,
        inverted,
        false,
        fuel,
    );
    let (rest, rest_err) = eval_cmds(
        models,
        name,
        cmds.skip(3),
        pos + 3,
        ctx,
        winding,
        inverted,
        false,
        fuel,
    );
    assert(whole == after_marker);
    if e1 is None && e2 is None {
        assert(after_first == (s2 + rest, rest_err));
        assert(after_marker == (s1 + (s2 + rest), rest_err));
        assert(s1 + (s2 + rest) =~= s1 + s2 + rest);
    }
}

/// Nested references compose their reflections through the net transform
/// alone: descending two references, neither carrying a one-shot inversion,
/// leaves the accumulated inversion chain exactly as it was, whatever the
/// two matrices are.  Reflections do not accumulate frame by frame; only
/// the determinant sign of the net transform, read once per frame, decides.
pub proof fn lemma_nested_refs_keep_chain(
    ctx: CtxView,
    m1: Seq<u32>,
    c1: ColorCode,
    m2: Seq<u32>,
    c2: ColorCode,
)
    ensures
        ({
            let f1 = child_view(ctx, m1, c1, false);
            let f2 = child_view(f1, m2, c2, false);
            &&& f2.inverted == ctx.inverted
            &&& f2.transform == mat_mul_bits(mat_mul_bits(ctx.transform, m1), m2)
        }),
{
}

/// Two nested references whose matrices are both reflections cancel: when
/// the determinant of the composed net transform is not negative — as for
/// two single-axis mirrors — a certified counter-clockwise leaf body under
/// both references emits every polygon in original vertex order.
pub proof fn lemma_double_reflection_cancels(
    models: Seq<Model>,
    inner: Seq<char>,
    cmds: Seq<Command>,
    ctx: CtxView,
    m1: Seq<u32>,
    c1: ColorCode,
    m2: Seq<u32>,
    c2: ColorCode,
    fuel: nat,
)
    requires
        ctx.inverted == false,
        !f32_bits_lt_zero(
            determinant_bits(mat_mul_bits(mat_mul_bits(ctx.transform, m1), m2)),
        ),
        lookup(models, inner) == Some(cmds),
        cmds.len() >= 1,
        cmds[0] is Comment,
        (cmds[0]->Comment_0)@ == "BFC CERTIFY CCW"@,
        leaf_only(cmds.drop_first()),
    ensures
        ({
            let f2 = child_view(child_view(ctx, m1, c1, false), m2, c2, false);
            eval_model(models, inner, f2, fuel) == (
                emits_in_order(cmds.drop_first(), f2.transform, f2.color),
                None::<ErrView>,
            )
        }),
{
    lemma_nested_refs_keep_chain(ctx, m1, c1, m2, c2);
    let f2 = child_view(child_view(ctx, m1, c1, false), m2, c2, false);
    lemma_certified_ccw_in_order(models, inner, cmds, f2, fuel);
}

/// Color inheritance: when only the outermost of three nested references
/// specifies an explicit color and the two below it pass the inherit
/// sentinel, the innermost frame inherits the explicit color, and a
/// triangle that itself asks for the sentinel emits with that color.
pub proof fn lemma_color_inheritance(
    ctx: CtxView,
    c: ColorCode,
    m1: Seq<u32>,
    m2: Seq<u32>,
    m3: Seq<u32>,
    i1: bool,
    i2: bool,
    i3: bool,
)
    requires
        c != CURRENT_COLOR,
    ensures
        ({
            let outer = child_view(ctx, m1, c, i1);
            let mid = child_view(outer, m2, CURRENT_COLOR, i2);
            let inner = child_view(mid, m3, CURRENT_COLOR, i3);
            &&& inner.color == c
            &&& resolve_color(inner.color, CURRENT_COLOR) == c
        }),
{
}

/// Every primitive a triangle with the sentinel color emits carries the
/// frame's inherited color.
pub proof fn lemma_sentinel_triangle_color(
    verts: [crate::geom::Point; 3],
    m: Seq<u32>,
    color: ColorCode,
    eff_ccw: bool,
)
    ensures
        ({
            let e = leaf_emits(
                Command::Triangle { vertices: verts, color: CURRENT_COLOR },
                m,
                color,
                eff_ccw,
            );
            &&& e.len() == 1
            &&& e[0] is Polygon
            &&& e[0]->Polygon_1 == color
        }),
{
}

/// A cyclic reference pair never runs away: when model `a` opens with a
/// reference to model `b` and `b` opens with a reference back to `a`,
/// evaluating `a` stops with the designated depth error, whatever depth
/// bound the caller configured.  Evaluation itself is total — the
/// specification recurses on a strictly decreasing bound and the evaluator
/// is checked to terminate — so a cycle can exhaust neither time nor stack.
pub proof fn lemma_cycle_reports_too_deep(
    models: Seq<Model>,
    a: Seq<char>,
    b: Seq<char>,
    ctx: CtxView,
    fuel: nat,
)
    requires
        lookup(models, a) matches Some(ca) && ca.len() >= 1 && ca[0] is SubFileRef && (
        ca[0]->SubFileRef_0).file@ == b,
        lookup(models, b) matches Some(cb) && cb.len() >= 1 && cb[0] is SubFileRef && (
        cb[0]->SubFileRef_0).file@ == a,
    ensures
        eval_model(models, a, ctx, fuel).1 matches Some(e) && e.kind == ErrorKind::TooDeep,
    decreases fuel,
{
    let ca = lookup(models, a)->Some_0;
    let r = ca[0]->SubFileRef_0;
    if fuel == 0 {
    } else {
        let child = child_view(ctx, r.matrix.bits(), r.color, false);
        lemma_cycle_reports_too_deep(models, b, a, child, (fuel - 1) as nat);
    }
}

} // verus!
