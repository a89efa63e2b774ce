//! The recursive evaluator: walks a store of named models and emits
//! world-space primitives in document order, composing transforms, inherited
//! colors and back-face-culling winding state across nested references.

use vstd::prelude::*;

use crate::geom::{determinant_bits, f32_bits_is_lt_zero, f32_bits_lt_zero, mat_determinant, project_view, Mat4, Point};
use crate::ldr::{child_view, resolve_color, ColorCode, CtxView, GeometryContext, Winding};
use crate::text::{seq_contains, seq_starts_with, str_contains, str_eq, str_starts_with};
use crate::{Poly, Primitive};

verus! {

/// A reference to another named model, carrying a local-to-parent transform
/// and a requested color.
pub struct SubFileRef {
    pub file: String,
    pub color: ColorCode,
    pub matrix: Mat4,
}

/// One drawing command of a model body, in the order the parser produced
/// them.
#[allow(inconsistent_fields)]
pub enum Command {
    /// A comment; back-face-culling markers travel in comments.
    Comment(String),
    /// An instance of another named model.
    SubFileRef(SubFileRef),
    /// A stroked segment.
    Line { vertices: [Point; 2] },
    /// A segment drawn only under some viewing conditions; the control
    /// points decide visibility and are a renderer concern.
    OptLine { vertices: [Point; 2], control: [Point; 2] },
    /// A filled triangle.
    Triangle { vertices: [Point; 3], color: ColorCode },
    /// A filled quadrilateral.
    Quad { vertices: [Point; 4], color: ColorCode },
    /// Any other command kind: ignored, forward-compatible.
    Other,
}

/// A named model: an ordered command list.
pub struct Model {
    pub name: String,
    pub cmds: Vec<Command>,
}

/// A read-only mapping from model name to command list.  Every model a
/// document references must be loaded here before evaluation starts.
pub struct ModelStore {
    pub models: Vec<Model>,
}

/// The command list of the first model named `name`, if any.
pub open spec fn lookup(models: Seq<Model>, name: Seq<char>) -> Option<Seq<Command>>
    decreases models.len(),
{
    if models.len() == 0 {
        None
    } else if models[0].name@ == name {
        Some(models[0].cmds@)
    } else {
        lookup(models.drop_first(), name)
    }
}

impl ModelStore {
    pub fn new() -> (r: ModelStore)
        ensures
            r.models@.len() == 0,
    {
        ModelStore { models: Vec::new() }
    }

    /// Adds a model; an earlier model with the same name keeps priority.
    pub fn add(&mut self, name: String, cmds: Vec<Command>)
        ensures
            final(self).models@ == old(self).models@.push(Model { name, cmds }),
    {
        self.models.push(Model { name, cmds });
    }

    /// Looks a model up by name.
    pub fn get(&self, name: &str) -> (r: Option<&Vec<Command>>)
        ensures
            match r {
                Some(cmds) => lookup(self.models@, name@) == Some(cmds@),
                None => lookup(self.models@, name@) is None,
            },
    {
        let mut i: usize = 0;
        proof {
            assert(self.models@.skip(0) =~= self.models@);
        }
        while i < self.models.len()
            invariant
                i <= self.models@.len(),
                lookup(self.models@, name@) == lookup(self.models@.skip(i as int), name@),
            decreases self.models@.len() - i,
        {
            proof {
                assert(self.models@.skip(i as int)[0] == self.models@[i as int]);
                assert(self.models@.skip(i as int).drop_first() =~= self.models@.skip(i + 1));
            }
            if str_eq(self.models[i].name.as_str(), name) {
                return Some(&self.models[i].cmds);
            }
            i = i + 1;
        }
        proof {
            assert(self.models@.skip(i as int) =~= Seq::<Model>::empty());
        }
        None
    }
}

/// The kinds of fatal malformed-input errors evaluation can raise.
#[derive(Clone, Copy, PartialEq, Eq, Structural, Debug)]
pub enum ErrorKind {
    /// A reference names a model absent from the store.
    MissingModel,
    /// A winding certification comment with an unrecognized value.
    BadCertify,
    /// A one-shot inversion was still pending when a leaf polygon was
    /// reached; it must be consumed by a sub-file reference.
    PendingInvert,
    /// The reference chain exceeded the configured depth bound, as a cyclic
    /// reference graph would.
    TooDeep,
    /// A drawable command in a model walked for instancing only.
    UnexpectedGeometry,
}

/// A fatal evaluation error with the model and command it arose at.
#[derive(Debug)]
pub struct EvalError {
    pub kind: ErrorKind,
    /// Name of the model whose body held the offending command.
    pub model: String,
    /// Index of the offending command within that model's body.
    pub index: usize,
}

/// The mathematical value of an [`EvalError`].
pub ghost struct ErrView {
    pub kind: ErrorKind,
    pub model: Seq<char>,
    pub index: int,
}

impl View for EvalError {
    type V = ErrView;

    open spec fn view(&self) -> ErrView {
        ErrView { kind: self.kind, model: self.model@, index: self.index as int }
    }
}

/// What evaluating a piece of a document yields: the primitives emitted in
/// document order up to the first fatal error, and that error if one arose.
pub type EvalOut = (Seq<Primitive>, Option<ErrView>);

/// Whether polygons emit in their original order: they do under counter-
/// clockwise winding with no pending inversion, and under clockwise winding
/// flipped by one.
pub open spec fn effective_ccw(winding: Winding, inverted: bool) -> bool {
    (winding == Winding::Ccw) != inverted
}

/// The primitives one leaf drawing command emits under transform `m`,
/// inherited color `color` and effective order `eff_ccw`.  A triangle keeps
/// its vertex order exactly when `eff_ccw`; a quadrilateral triangulates
/// into two triangles, order-reversed the same way.  Segments ignore winding
/// and carry no color.
pub open spec fn leaf_emits(c: Command, m: Seq<u32>, color: ColorCode, eff_ccw: bool) -> Seq<Primitive> {
    match c {
        Command::Line { vertices } => seq![
            Primitive::Line([project_view(m, vertices@[0]), project_view(m, vertices@[1])]),
        ],
        Command::OptLine { vertices, control } => seq![
            Primitive::Line([project_view(m, vertices@[0]), project_view(m, vertices@[1])]),
        ],
        Command::Triangle { vertices, color: c0 } => {
            let a = project_view(m, vertices@[0]);
            let b = project_view(m, vertices@[1]);
            let cc = project_view(m, vertices@[2]);
            let col = resolve_color(color, c0);
            if eff_ccw {
                seq![Primitive::Polygon(Poly::Tri([a, b, cc]), col)]
            } else {
                seq![Primitive::Polygon(Poly::Tri([cc, b, a]), col)]
            }
        },
        Command::Quad { vertices, color: c0 } => {
            let a = project_view(m, vertices@[0]);
            let b = project_view(m, vertices@[1]);
            let cc = project_view(m, vertices@[2]);
            let d = project_view(m, vertices@[3]);
            let col = resolve_color(color, c0);
            if eff_ccw {
                seq![
                    Primitive::Polygon(Poly::Tri([a, b, cc]), col),
                    Primitive::Polygon(Poly::Tri([cc, d, a]), col),
                ]
            } else {
                seq![
                    Primitive::Polygon(Poly::Tri([cc, b, a]), col),
                    Primitive::Polygon(Poly::Tri([a, d, cc]), col),
                ]
            }
        },
        _ => seq![],
    }
}

/// Evaluation of one whole model body: looks the name up, resets the frame's
/// winding to counter-clockwise, seeds the frame's inversion from the
/// caller's accumulated chain flipped once more if the net transform's
/// determinant is negative, and walks the commands in order.
pub open spec fn eval_model(models: Seq<Model>, name: Seq<char>, ctx: CtxView, fuel: nat) -> EvalOut
    decreases fuel, 1int, 0int,
{
    match lookup(models, name) {
        None => (
            Seq::<Primitive>::empty(),
            Some(ErrView { kind: ErrorKind::MissingModel, model: name, index: 0 }),
        ),
        Some(cmds) => {
            let inverted = ctx.inverted ^ f32_bits_lt_zero(determinant_bits(ctx.transform));
            eval_cmds(models, name, cmds, 0, ctx, Winding::Ccw, inverted, false, fuel)
        },
    }
}

/// Evaluation of the command suffix `cmds` of model `name`, whose first
/// command sits at `pos` in the body, under the given frame state.
pub open spec fn eval_cmds(
    models: Seq<Model>,
    name: Seq<char>,
    cmds: Seq<Command>,
    pos: int,
    ctx: CtxView,
    winding: Winding,
    inverted: bool,
    invert_next: bool,
    fuel: nat,
) -> EvalOut
    decreases fuel, 0int, cmds.len(),
{
    if cmds.len() == 0 {
        (Seq::<Primitive>::empty(), None)
    } else {
        let rest = cmds.drop_first();
        match cmds[0] {
            Command::Comment(text) => {
                if seq_starts_with(text@, "BFC CERTIFY"@) {
                    if text@ == "BFC CERTIFY CCW"@ {
                        eval_cmds(models, name, rest, pos + 1, ctx, Winding::Ccw, inverted, invert_next, fuel)
                    } else if text@ == "BFC CERTIFY CW"@ {
                        eval_cmds(models, name, rest, pos + 1, ctx, Winding::Cw, inverted, invert_next, fuel)
                    } else {
                        (
                            Seq::<Primitive>::empty(),
                            Some(ErrView { kind: ErrorKind::BadCertify, model: name, index: pos }),
                        )
                    }
                } else if seq_contains(text@, "BFC INVERTNEXT"@) {
                    eval_cmds(models, name, rest, pos + 1, ctx, winding, inverted, true, fuel)
                } else {
                    eval_cmds(models, name, rest, pos + 1, ctx, winding, inverted, invert_next, fuel)
                }
            },
            Command::SubFileRef(r) => {
                if fuel == 0 {
                    (
                        Seq::<Primitive>::empty(),
                        Some(ErrView { kind: ErrorKind::TooDeep, model: name, index: pos }),
                    )
                } else {
                    let child = child_view(ctx, r.matrix.bits(), r.color, invert_next);
                    let (sub, sub_err) = eval_model(models, r.file@, child, (fuel - 1) as nat);
                    if sub_err is Some {
                        (sub, sub_err)
                    } else {
                        let (tail, tail_err) = eval_cmds(
                            models, name, rest, pos + 1, ctx, winding, inverted, false, fuel,
                        );
                        (sub + tail, tail_err)
                    }
                }
            },
            Command::Triangle { vertices, color } => {
                if invert_next {
                    (
                        Seq::<Primitive>::empty(),
                        Some(ErrView { kind: ErrorKind::PendingInvert, model: name, index: pos }),
                    )
                } else {
                    let emitted = leaf_emits(
                        cmds[0], ctx.transform, ctx.color, effective_ccw(winding, inverted),
                    );
                    let (tail, tail_err) = eval_cmds(
                        models, name, rest, pos + 1, ctx, winding, inverted, false, fuel,
                    );
                    (emitted + tail, tail_err)
                }
            },
            Command::Quad { vertices, color } => {
                if invert_next {
                    (
                        Seq::<Primitive>::empty(),
                        Some(ErrView { kind: ErrorKind::PendingInvert, model: name, index: pos }),
                    )
                } else {
                    let emitted = leaf_emits(
                        cmds[0], ctx.transform, ctx.color, effective_ccw(winding, inverted),
                    );
                    let (tail, tail_err) = eval_cmds(
                        models, name, rest, pos + 1, ctx, winding, inverted, false, fuel,
                    );
                    (emitted + tail, tail_err)
                }
            },
            Command::Line { vertices } => {
                let emitted = leaf_emits(
                    cmds[0], ctx.transform, ctx.color, effective_ccw(winding, inverted),
                );
                let (tail, tail_err) = eval_cmds(
                    models, name, rest, pos + 1, ctx, winding, inverted, invert_next, fuel,
                );
                (emitted + tail, tail_err)
            },
            Command::OptLine { vertices, control } => {
                let emitted = leaf_emits(
                    cmds[0], ctx.transform, ctx.color, effective_ccw(winding, inverted),
                );
                let (tail, tail_err) = eval_cmds(
                    models, name, rest, pos + 1, ctx, winding, inverted, invert_next, fuel,
                );
                (emitted + tail, tail_err)
            },
            Command::Other => eval_cmds(
                models, name, rest, pos + 1, ctx, winding, inverted, invert_next, fuel,
            ),
        }
    }
}

/// Evaluates the model named `model_name` under context `ctx`, appending
/// every emitted primitive to `output` in document order.  `fuel` bounds the
/// depth of nested references: a chain deeper than `fuel` — as a cyclic
/// reference graph forces — stops with a [`ErrorKind::TooDeep`] error rather
/// than exhausting the call stack.  On an error, the primitives emitted
/// before the offending command remain in `output`.
#[verifier::rlimit(100)]
pub fn traverse(
    store: &ModelStore,
    model_name: &str,
    ctx: GeometryContext,
    output: &mut Vec<Primitive>,
    fuel: usize,
) -> (r: Result<(), EvalError>)
    ensures
        ({
            let (prims, err) = eval_model(store.models@, model_name@, ctx@, fuel as nat);
            &&& final(output)@ == old(output)@ + prims
            &&& match r {
                Ok(()) => err is None,
                Err(e) => err == Some(e@),
            }
        }),
    decreases fuel,
{
    let ghost models = store.models@;
    let cmds = match store.get(model_name) {
        None => {
            proof {
                assert(output@ =~= old(output)@ + Seq::<Primitive>::empty());
            }
            return Err(EvalError {
                kind: ErrorKind::MissingModel,
                model: model_name.to_owned(),
                index: 0,
            });
        },
        Some(c) => c,
    };
    let det = mat_determinant(&ctx.transform);
    let inverted = ctx.inverted ^ f32_bits_is_lt_zero(det);
    let mut winding = Winding::Ccw;
    let mut invert_next = false;
    let mut i: usize = 0;
    let ghost mut emitted = Seq::<Primitive>::empty();
    proof {
        assert(cmds@.skip(0) =~= cmds@);
        assert(output@ =~= old(output)@ + emitted);
    }
    while i < cmds.len()
        invariant
            i <= cmds@.len(),
            lookup(models, model_name@) == Some(cmds@),
            models == store.models@,
            output@ == old(output)@ + emitted,
            ({
                let (rest, rest_err) = eval_cmds(
                    models,
                    model_name@,
                    cmds@.skip(i as int),
                    i as int,
                    ctx@,
                    winding,
                    inverted,
                    invert_next,
                    fuel as nat,
                );
                let (whole, whole_err) = eval_model(models, model_name@, ctx@, fuel as nat);
                whole == emitted + rest && whole_err == rest_err
            }),
        decreases cmds@.len() - i,
    {
        proof {
            assert(cmds@.skip(i as int)[0] == cmds@[i as int]);
            assert(cmds@.skip(i as int).drop_first() =~= cmds@.skip(i + 1));
        }
        match &cmds[i] {
            Command::Comment(text) => {
                if str_starts_with(text.as_str(), "BFC CERTIFY") {
                    if str_eq(text.as_str(), "BFC CERTIFY CCW") {
                        winding = Winding::Ccw;
                    } else if str_eq(text.as_str(), "BFC CERTIFY CW") {
                        winding = Winding::Cw;
                    } else {
                        return Err(EvalError {
                            kind: ErrorKind::BadCertify,
                            model: model_name.to_owned(),
                            index: i,
                        });
                    }
                } else if str_contains(text.as_str(), "BFC INVERTNEXT") {
                    invert_next = true;
                }
            },
            Command::SubFileRef(r) => {
                if fuel == 0 {
                    return Err(EvalError {
                        kind: ErrorKind::TooDeep,
                        model: model_name.to_owned(),
                        index: i,
                    });
                }
                let child = ctx.child(&r.matrix, r.color, invert_next);
                let res = traverse(store, r.file.as_str(), child, output, fuel - 1);
                invert_next = false;
                proof {
                    let (sub, sub_err) = eval_model(
                        models, r.file@, child@, (fuel - 1) as nat,
                    );
                    emitted = emitted + sub;
                    assert(output@ =~= old(output)@ + emitted);
                }
                if let Err(e) = res {
                    return Err(e);
                }
            },
            Command::Line { vertices } => {
                let a = ctx.project_point(&vertices[0]);
                let b = ctx.project_point(&vertices[1]);
                output.push(Primitive::Line([a, b]));
                proof {
                    emitted = emitted + leaf_emits(
                        cmds@[i as int], ctx@.transform, ctx@.color, effective_ccw(winding, inverted),
                    );
                    assert(output@ =~= old(output)@ + emitted);
                }
            },
            Command::OptLine { vertices, control } => {
                let a = ctx.project_point(&vertices[0]);
                let b = ctx.project_point(&vertices[1]);
                output.push(Primitive::Line([a, b]));
                proof {
                    emitted = emitted + leaf_emits(
                        cmds@[i as int], ctx@.transform, ctx@.color, effective_ccw(winding, inverted),
                    );
                    assert(output@ =~= old(output)@ + emitted);
                }
            },
            Command::Triangle { vertices, color } => {
                if invert_next {
                    return Err(EvalError {
                        kind: ErrorKind::PendingInvert,
                        model: model_name.to_owned(),
                        index: i,
                    });
                }
                let a = ctx.project_point(&vertices[0]);
                let b = ctx.project_point(&vertices[1]);
                let c = ctx.project_point(&vertices[2]);
                let col = crate::ldr::new_color(ctx.color, *color);
                let eff_ccw = (winding == Winding::Ccw) != inverted;
                if eff_ccw {
                    output.push(Primitive::Polygon(Poly::Tri([a, b, c]), col));
                } else {
                    output.push(Primitive::Polygon(Poly::Tri([c, b, a]), col));
                }
                proof {
                    emitted = emitted + leaf_emits(
                        cmds@[i as int], ctx@.transform, ctx@.color, effective_ccw(winding, inverted),
                    );
                    assert(output@ =~= old(output)@ + emitted);
                }
            },
            Command::Quad { vertices, color } => {
                if invert_next {
                    return Err(EvalError {
                        kind: ErrorKind::PendingInvert,
                        model: model_name.to_owned(),
                        index: i,
                    });
                }
                let a = ctx.project_point(&vertices[0]);
                let b = ctx.project_point(&vertices[1]);
                let c = ctx.project_point(&vertices[2]);
                let d = ctx.project_point(&vertices[3]);
                let col = crate::ldr::new_color(ctx.color, *color);
                let eff_ccw = (winding == Winding::Ccw) != inverted;
                if eff_ccw {
                    output.push(Primitive::Polygon(Poly::Tri([a, b, c]), col));
                    output.push(Primitive::Polygon(Poly::Tri([c, d, a]), col));
                } else {
                    output.push(Primitive::Polygon(Poly::Tri([c, b, a]), col));
                    output.push(Primitive::Polygon(Poly::Tri([a, d, c]), col));
                }
                proof {
                    emitted = emitted + leaf_emits(
                        cmds@[i as int], ctx@.transform, ctx@.color, effective_ccw(winding, inverted),
                    );
                    assert(output@ =~= old(output)@ + emitted);
                }
            },
            Command::Other => {},
        }
        i = i + 1;
    }
    proof {
        assert(cmds@.skip(i as int) =~= Seq::<Command>::empty());
        let (whole, whole_err) = eval_model(models, model_name@, ctx@, fuel as nat);
        assert(whole =~= emitted + Seq::<Primitive>::empty());
    }
    Ok(())
}

/// The triangles among a primitive sequence, in order.
pub open spec fn triangles_of(prims: Seq<Primitive>) -> Seq<[Point; 3]>
    decreases prims.len(),
{
    if prims.len() == 0 {
        Seq::<[Point; 3]>::empty()
    } else {
        let rest = triangles_of(prims.drop_first());
        match prims[0] {
            Primitive::Polygon(Poly::Tri(t), _) => seq![t] + rest,
            _ => rest,
        }
    }
}

/// The segments among a primitive sequence, in order.
pub open spec fn segments_of(prims: Seq<Primitive>) -> Seq<[Point; 2]>
    decreases prims.len(),
{
    if prims.len() == 0 {
        Seq::<[Point; 2]>::empty()
    } else {
        let rest = segments_of(prims.drop_first());
        match prims[0] {
            Primitive::Line(l) => seq![l] + rest,
            _ => rest,
        }
    }
}

/// Evaluates a model as [`traverse`] does, but hands the triangles and the
/// segments out separately, as a mesh builder wants them.
pub fn traverse_part(
    store: &ModelStore,
    model_name: &str,
    ctx: GeometryContext,
    triangles: &mut Vec<[Point; 3]>,
    lines: &mut Vec<[Point; 2]>,
    fuel: usize,
) -> (r: Result<(), EvalError>)
    ensures
        ({
            let (prims, err) = eval_model(store.models@, model_name@, ctx@, fuel as nat);
            &&& final(triangles)@ == old(triangles)@ + triangles_of(prims)
            &&& final(lines)@ == old(lines)@ + segments_of(prims)
            &&& match r {
                Ok(()) => err is None,
                Err(e) => err == Some(e@),
            }
        }),
{
    let mut prims: Vec<Primitive> = Vec::new();
    let res = traverse(store, model_name, ctx, &mut prims, fuel);
    let mut i: usize = 0;
    let ghost tris = Seq::<[Point; 3]>::empty();
    let ghost segs = Seq::<[Point; 2]>::empty();
    let ghost mut tris = tris;
    let ghost mut segs = segs;
    proof {
        assert(prims@.skip(0) =~= prims@);
    }
    while i < prims.len()
        invariant
            i <= prims@.len(),
            triangles@ == old(triangles)@ + tris,
            lines@ == old(lines)@ + segs,
            tris + triangles_of(prims@.skip(i as int)) == triangles_of(prims@),
            segs + segments_of(prims@.skip(i as int)) == segments_of(prims@),
        decreases prims@.len() - i,
    {
        proof {
            assert(prims@.skip(i as int)[0] == prims@[i as int]);
            assert(prims@.skip(i as int).drop_first() =~= prims@.skip(i + 1));
        }
        match &prims[i] {
            Primitive::Polygon(Poly::Tri(t), _) => {
                triangles.push(*t);
                proof {
                    tris = tris.push(prims@[i as int]->Polygon_0->Tri_0);
                    assert(tris + triangles_of(prims@.skip(i + 1)) =~= triangles_of(prims@));
                }
            },
            Primitive::Line(l) => {
                lines.push(*l);
                proof {
                    segs = segs.push(prims@[i as int]->Line_0);
                    assert(segs + segments_of(prims@.skip(i + 1)) =~= segments_of(prims@));
                }
            },
            _ => {},
        }
        i = i + 1;
    }
    proof {
        assert(prims@.skip(i as int) =~= Seq::<Primitive>::empty());
        assert(tris =~= tris + triangles_of(prims@.skip(i as int)));
        assert(segs =~= segs + segments_of(prims@.skip(i as int)));
    }
    res
}

/// An opaque instanced reference to a leaf part: the renderer reuses cached
/// geometry for the part and places it with the world transform.
#[derive(Debug)]
pub struct Part {
    /// File name of the referenced leaf part.
    pub id: String,
    /// Resolved color code of the instance.
    pub color: ColorCode,
    /// World transform of the instance.
    pub transform: Mat4,
}

/// The mathematical value of a [`Part`].
pub ghost struct PartView {
    pub id: Seq<char>,
    pub color: ColorCode,
    pub transform: Seq<u32>,
}

impl View for Part {
    type V = PartView;

    open spec fn view(&self) -> PartView {
        PartView { id: self.id@, color: self.color, transform: self.transform.bits() }
    }
}

/// The mathematical values of a sequence of parts.
pub open spec fn parts_view(s: Seq<Part>) -> Seq<PartView> {
    s.map_values(|p: Part| p@)
}

proof fn lemma_parts_view_push(s: Seq<Part>, p: Part)
    ensures
        parts_view(s.push(p)) == parts_view(s).push(p@),
{
    assert(parts_view(s.push(p)) =~= parts_view(s).push(p@));
}

/// Whether a referenced file is a leaf part by the file-name convention the
/// pipelines use: leaf parts come from the part catalog as `.dat` files,
/// while assemblies are models of the document.
pub open spec fn spec_is_leaf_part(name: Seq<char>) -> bool {
    crate::text::seq_ends_with(name, ".dat"@)
}

/// Instancing evaluation of one whole model body.  Only references are
/// walked: a reference to a leaf part emits one instance, a reference to an
/// assembly recurses, and a drawable command is a data-integrity error — a
/// design walked for instancing must keep its geometry inside leaf parts.
pub open spec fn design_model(models: Seq<Model>, name: Seq<char>, ctx: CtxView, fuel: nat) -> (Seq<
    PartView,
>, Option<ErrView>)
    decreases fuel, 1int, 0int,
{
    match lookup(models, name) {
        None => (
            Seq::<PartView>::empty(),
            Some(ErrView { kind: ErrorKind::MissingModel, model: name, index: 0 }),
        ),
        Some(cmds) => design_cmds(models, name, cmds, 0, ctx, fuel),
    }
}

/// Instancing evaluation of the command suffix `cmds` of model `name`.
pub open spec fn design_cmds(
    models: Seq<Model>,
    name: Seq<char>,
    cmds: Seq<Command>,
    pos: int,
    ctx: CtxView,
    fuel: nat,
) -> (Seq<PartView>, Option<ErrView>)
    decreases fuel, 0int, cmds.len(),
{
    if cmds.len() == 0 {
        (Seq::<PartView>::empty(), None)
    } else {
        let rest_cmds = cmds.drop_first();
        match cmds[0] {
            Command::SubFileRef(r) => {
                if fuel == 0 {
                    (
                        Seq::<PartView>::empty(),
                        Some(ErrView { kind: ErrorKind::TooDeep, model: name, index: pos }),
                    )
                } else {
                    let child = child_view(ctx, r.matrix.bits(), r.color, false);
                    if spec_is_leaf_part(r.file@) {
                        let part = PartView {
                            id: r.file@,
                            color: resolve_color(child.color, r.color),
                            transform: child.transform,
                        };
                        let (rest, err) = design_cmds(models, name, rest_cmds, pos + 1, ctx, fuel);
                        (seq![part] + rest, err)
                    } else {
                        let (sub, sub_err) = design_model(models, r.file@, child, (fuel - 1) as nat);
                        if sub_err is Some {
                            (sub, sub_err)
                        } else {
                            let (rest, err) = design_cmds(models, name, rest_cmds, pos + 1, ctx, fuel);
                            (sub + rest, err)
                        }
                    }
                }
            },
            Command::Line { vertices } => (
                Seq::<PartView>::empty(),
                Some(ErrView { kind: ErrorKind::UnexpectedGeometry, model: name, index: pos }),
            ),
            Command::OptLine { vertices, control } => (
                Seq::<PartView>::empty(),
                Some(ErrView { kind: ErrorKind::UnexpectedGeometry, model: name, index: pos }),
            ),
            Command::Triangle { vertices, color } => (
                Seq::<PartView>::empty(),
                Some(ErrView { kind: ErrorKind::UnexpectedGeometry, model: name, index: pos }),
            ),
            Command::Quad { vertices, color } => (
                Seq::<PartView>::empty(),
                Some(ErrView { kind: ErrorKind::UnexpectedGeometry, model: name, index: pos }),
            ),
            _ => design_cmds(models, name, rest_cmds, pos + 1, ctx, fuel),
        }
    }
}

/// Walks a design for instancing: every reference to a leaf part appends one
/// [`Part`] to `output`, in document order; references to assemblies
/// recurse.  Drawable commands met outside leaf parts, and reference chains
/// deeper than `fuel`, stop evaluation with the corresponding error.
#[verifier::rlimit(100)]
pub fn traverse_design(
    store: &ModelStore,
    model_name: &str,
    ctx: GeometryContext,
    output: &mut Vec<Part>,
    fuel: usize,
) -> (r: Result<(), EvalError>)
    ensures
        ({
            let (parts, err) = design_model(store.models@, model_name@, ctx@, fuel as nat);
            &&& parts_view(final(output)@) == parts_view(old(output)@) + parts
            &&& match r {
                Ok(()) => err is None,
                Err(e) => err == Some(e@),
            }
        }),
    decreases fuel,
{
    let ghost models = store.models@;
    let cmds = match store.get(model_name) {
        None => {
            proof {
                assert(parts_view(output@) =~= parts_view(old(output)@) + Seq::<PartView>::empty());
            }
            return Err(EvalError {
                kind: ErrorKind::MissingModel,
                model: model_name.to_owned(),
                index: 0,
            });
        },
        Some(c) => c,
    };
    let mut i: usize = 0;
    let ghost mut emitted = Seq::<PartView>::empty();
    proof {
        assert(cmds@.skip(0) =~= cmds@);
        assert(parts_view(output@) =~= parts_view(old(output)@) + emitted);
    }
    while i < cmds.len()
        invariant
            i <= cmds@.len(),
            lookup(models, model_name@) == Some(cmds@),
            models == store.models@,
            parts_view(output@) == parts_view(old(output)@) + emitted,
            ({
                let (rest, rest_err) = design_cmds(
                    models,
                    model_name@,
                    cmds@.skip(i as int),
                    i as int,
                    ctx@,
                    fuel as nat,
                );
                let (whole, whole_err) = design_model(models, model_name@, ctx@, fuel as nat);
                whole == emitted + rest && whole_err == rest_err
            }),
        decreases cmds@.len() - i,
    {
        proof {
            assert(cmds@.skip(i as int)[0] == cmds@[i as int]);
            assert(cmds@.skip(i as int).drop_first() =~= cmds@.skip(i + 1));
        }
        match &cmds[i] {
            Command::SubFileRef(r) => {
                if fuel == 0 {
                    return Err(EvalError {
                        kind: ErrorKind::TooDeep,
                        model: model_name.to_owned(),
                        index: i,
                    });
                }
                let child = ctx.child(&r.matrix, r.color, false);
                if crate::text::str_ends_with(r.file.as_str(), ".dat") {
                    let part = Part {
                        id: r.file.clone(),
                        color: crate::ldr::new_color(child.color, r.color),
                        transform: child.transform,
                    };
                    let ghost pre = output@;
                    let ghost pv = part@;
                    output.push(part);
                    proof {
                        lemma_parts_view_push(pre, Part {
                            id: r.file,
                            color: resolve_color(child@.color, r.color),
                            transform: child.transform,
                        });
                        emitted = emitted.push(pv);
                        assert(pv == PartView {
                            id: r.file@,
                            color: resolve_color(child@.color, r.color),
                            transform: child@.transform,
                        });
                        assert(parts_view(output@) =~= parts_view(old(output)@) + emitted);
                    }
                } else {
                    let res = traverse_design(store, r.file.as_str(), child, output, fuel - 1);
                    proof {
                        let (sub, sub_err) = design_model(models, r.file@, child@, (fuel - 1) as nat);
                        emitted = emitted + sub;
                        assert(parts_view(output@) =~= parts_view(old(output)@) + emitted);
                    }
                    if let Err(e) = res {
                        return Err(e);
                    }
                }
            },
            Command::Line { vertices } => {
                return Err(EvalError {
                    kind: ErrorKind::UnexpectedGeometry,
                    model: model_name.to_owned(),
                    index: i,
                });
            },
            Command::OptLine { vertices, control } => {
                return Err(EvalError {
                    kind: ErrorKind::UnexpectedGeometry,
                    model: model_name.to_owned(),
                    index: i,
                });
            },
            Command::Triangle { vertices, color } => {
                return Err(EvalError {
                    kind: ErrorKind::UnexpectedGeometry,
                    model: model_name.to_owned(),
                    index: i,
                });
            },
            Command::Quad { vertices, color } => {
                return Err(EvalError {
                    kind: ErrorKind::UnexpectedGeometry,
                    model: model_name.to_owned(),
                    index: i,
                });
            },
            _ => {},
        }
        i = i + 1;
    }
    proof {
        assert(cmds@.skip(i as int) =~= Seq::<Command>::empty());
        let (whole, whole_err) = design_model(models, model_name@, ctx@, fuel as nat);
        assert(whole =~= emitted + Seq::<PartView>::empty());
    }
    Ok(())
}

} // verus!
