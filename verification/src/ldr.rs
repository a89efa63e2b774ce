//! Color codes, winding state and the per-frame geometry context.

use vstd::prelude::*;

use crate::geom::{mat_mul, mat_mul_bits, project_view, transform_point, transform_point_bits, Mat4, Point};

verus! {

/// A 32-bit color identifier.
pub type ColorCode = u32;

/// Sentinel color code meaning "inherit the color of the referencing
/// context".
pub const CURRENT_COLOR: ColorCode = 16;

/// What a requested color resolves to against an inherited one: the
/// inherited color when the request is the sentinel, the request otherwise.
pub open spec fn resolve_color(current: ColorCode, new: ColorCode) -> ColorCode {
    if new == CURRENT_COLOR {
        current
    } else {
        new
    }
}

/// Resolves a requested color against the inherited `current` one.
pub fn new_color(current: ColorCode, new: ColorCode) -> (r: ColorCode)
    ensures
        r == resolve_color(current, new),
{
    if new == CURRENT_COLOR {
        current
    } else {
        new
    }
}

/// Cyclic vertex order declared for a model's polygons.
#[derive(Clone, Copy, PartialEq, Eq, Structural, Debug)]
pub enum Winding {
    Ccw,
    Cw,
}

impl Winding {
    /// The opposite winding.
    pub open spec fn spec_flip(self) -> Winding {
        match self {
            Winding::Ccw => Winding::Cw,
            Winding::Cw => Winding::Ccw,
        }
    }

    /// The opposite winding.
    pub fn flip(self) -> (r: Winding)
        ensures
            r == self.spec_flip(),
    {
        match self {
            Winding::Ccw => Winding::Cw,
            Winding::Cw => Winding::Ccw,
        }
    }
}

/// Immutable per-call-frame state of the evaluator: the accumulated
/// transform, the inherited color, and the accumulated chain of one-shot
/// subtree inversions.  A descent produces a new value; frames are never
/// mutated in place.
#[derive(Clone, Copy, PartialEq, Eq, Debug)]
pub struct GeometryContext {
    /// World transform accumulated along the reference path.
    pub transform: Mat4,
    /// Color inherited from the referencing context.
    pub color: ColorCode,
    /// Exclusive-or of the one-shot inversion markers consumed by the
    /// references along the path.  The determinant sign of `transform` is
    /// deliberately not folded in here: each frame reads it afresh from its
    /// own net transform, so that nested reflections compose by sign.
    pub inverted: bool,
}

/// The mathematical value of a [`GeometryContext`]: the transform as its
/// entry bit patterns, the inherited color, and the inversion chain.
pub ghost struct CtxView {
    pub transform: Seq<u32>,
    pub color: ColorCode,
    pub inverted: bool,
}

/// The context a sub-file reference descends with: transform composed on the
/// right with the reference's matrix, color resolved against the inherited
/// one, and the reference's consumed one-shot inversion folded into the
/// chain.
pub open spec fn child_view(c: CtxView, matrix: Seq<u32>, color: ColorCode, invert: bool) -> CtxView {
    CtxView {
        transform: mat_mul_bits(c.transform, matrix),
        color: resolve_color(c.color, color),
        inverted: c.inverted ^ invert,
    }
}

impl View for GeometryContext {
    type V = CtxView;

    open spec fn view(&self) -> CtxView {
        CtxView { transform: self.transform.bits(), color: self.color, inverted: self.inverted }
    }
}

impl GeometryContext {
    /// The root context of an evaluation.  The initial transform is pipeline
    /// policy (identity for mesh builders, a fixed isometric view for page
    /// rendering) and is supplied by the caller; the color starts at the
    /// inherit sentinel.
    pub fn new(transform: Mat4) -> (r: GeometryContext)
        ensures
            r == (GeometryContext { transform, color: CURRENT_COLOR, inverted: false }),
    {
        GeometryContext { transform, color: CURRENT_COLOR, inverted: false }
    }

    /// The context for a sub-file reference carrying `matrix` and `color`,
    /// with `invert` the one-shot inversion pending at the reference.
    pub fn child(&self, matrix: &Mat4, color: ColorCode, invert: bool) -> (r: GeometryContext)
        ensures
            r@ == child_view(self@, matrix.bits(), color, invert),
    {
        GeometryContext {
            transform: mat_mul(&self.transform, matrix),
            color: new_color(self.color, color),
            inverted: self.inverted ^ invert,
        }
    }

    /// Projects one local vertex into world space through the accumulated
    /// transform.
    pub fn project_point(&self, v: &Point) -> (r: Point)
        ensures
            r.bits() == transform_point_bits(self.transform.bits(), v.bits()),
            r == project_view(self.transform.bits(), *v),
    {
        let r = transform_point(&self.transform, v);
        proof {
            let tb = transform_point_bits(self.transform.bits(), v.bits());
            assert(r.bits() == tb);
            assert(r.x == tb[0] && r.y == tb[1] && r.z == tb[2]);
        }
        r
    }

    /// Projects a list of local vertices into world space, in order.
    pub fn project(&self, vertices: &Vec<Point>) -> (r: Vec<Point>)
        ensures
            r@.len() == vertices@.len(),
            forall|i: int|
                0 <= i < vertices@.len() ==> #[trigger] r@[i].bits() == transform_point_bits(
                    self.transform.bits(),
                    vertices@[i].bits(),
                ),
    {
        let mut out: Vec<Point> = Vec::new();
        let mut i: usize = 0;
        while i < vertices.len()
            invariant
                i <= vertices@.len(),
                out@.len() == i,
                forall|j: int|
                    0 <= j < i ==> #[trigger] out@[j].bits() == transform_point_bits(
                        self.transform.bits(),
                        vertices@[j].bits(),
                    ),
            decreases vertices@.len() - i,
        {
            out.push(self.project_point(&vertices[i]));
            i = i + 1;
        }
        out
    }
}

/// One color definition from the configuration palette: the identifying
/// code, the display name, the primary value and the optional opacity.
#[derive(PartialEq, Eq, Debug)]
pub struct ColourDef {
    pub code: ColorCode,
    pub name: String,
    pub red: u8,
    pub green: u8,
    pub blue: u8,
    pub alpha: Option<u8>,
}

impl ColourDef {
    /// An equal copy.
    pub fn clone_def(&self) -> (r: ColourDef)
        ensures
            r == *self,
    {
        ColourDef {
            code: self.code,
            name: self.name.clone(),
            red: self.red,
            green: self.green,
            blue: self.blue,
            alpha: self.alpha,
        }
    }
}

/// The last color definition among `defs` that carries `code`, if any.
pub open spec fn last_def_for(defs: Seq<Option<ColourDef>>, code: ColorCode) -> Option<ColourDef>
    decreases defs.len(),
{
    if defs.len() == 0 {
        None
    } else if defs.last() matches Some(d) && d.code == code {
        defs.last()
    } else {
        last_def_for(defs.drop_last(), code)
    }
}

/// The first color definition among `defs`, if any: it becomes the
/// palette's fallback.
pub open spec fn first_def(defs: Seq<Option<ColourDef>>) -> Option<ColourDef>
    decreases defs.len(),
{
    if defs.len() == 0 {
        None
    } else if defs[0] is Some {
        defs[0]
    } else {
        first_def(defs.drop_first())
    }
}

/// Extending a prefix by one element either overrides the last definition
/// for the new element's code or changes nothing.
proof fn lemma_last_def_extend(defs: Seq<Option<ColourDef>>, i: int, c: ColorCode)
    requires
        0 <= i < defs.len(),
    ensures
        last_def_for(defs.take(i + 1), c) == (match defs[i] {
            Some(d) => if d.code == c {
                Some(d)
            } else {
                last_def_for(defs.take(i), c)
            },
            None => last_def_for(defs.take(i), c),
        }),
{
    assert(defs.take(i + 1).last() == defs[i]);
    assert(defs.take(i + 1).drop_last() =~= defs.take(i));
}

/// Extending a prefix by one element changes its first definition only when
/// the prefix had none.
proof fn lemma_first_def_extend(defs: Seq<Option<ColourDef>>, i: int)
    requires
        0 <= i < defs.len(),
    ensures
        first_def(defs.take(i + 1)) == if first_def(defs.take(i)) is Some {
            first_def(defs.take(i))
        } else if defs[i] is Some {
            defs[i]
        } else {
            None::<ColourDef>
        },
    decreases i,
{
    if i == 0 {
        assert(defs.take(0) =~= Seq::<Option<ColourDef>>::empty());
        assert(defs.take(1)[0] == defs[0]);
        assert(defs.take(1).drop_first() =~= Seq::<Option<ColourDef>>::empty());
    } else {
        lemma_first_def_extend(defs.drop_first(), i - 1);
        assert(defs.take(i + 1)[0] == defs[0]);
        assert(defs.take(i)[0] == defs[0]);
        assert(defs.take(i + 1).drop_first() =~= defs.drop_first().take(i));
        assert(defs.take(i).drop_first() =~= defs.drop_first().take(i - 1));
        assert(defs.drop_first()[i - 1] == defs[i]);
    }
}

#[verifier::external_type_specification]
#[verifier::external_body]
#[verifier::reject_recursive_types(T)]
pub struct ExSlab<T>(slab::Slab<T>);

/// What a slab of color definitions holds: a map from assigned key to
/// stored value.
pub uninterp spec fn slab_entries(s: slab::Slab<ColourDef>) -> Map<usize, ColourDef>;

/// Relies on `slab::Slab::new`: a fresh slab holds nothing.
#[verifier::external_body]
fn slab_new() -> (r: slab::Slab<ColourDef>)
    ensures
        forall|k: usize| !slab_entries(r).dom().contains(k),
{
    slab::Slab::new()
}

/// Relies on `slab::Slab::insert`: the value is stored at a vacant key and
/// that key is returned; the first insertion into a fresh slab gets key
/// zero, as the slab allocates keys from zero upward.
#[verifier::external_body]
fn slab_insert(s: &mut slab::Slab<ColourDef>, v: ColourDef) -> (k: usize)
    ensures
        !slab_entries(*old(s)).dom().contains(k),
        slab_entries(*final(s)) == slab_entries(*old(s)).insert(k, v),
        slab_entries(*old(s)).dom() =~= Set::<usize>::empty() ==> k == 0,
{
    s.insert(v)
}

/// Relies on `slab::Slab::get`: the value stored at the key, if the key is
/// occupied.
#[verifier::external_body]
fn slab_get(s: &slab::Slab<ColourDef>, k: usize) -> (r: Option<&ColourDef>)
    ensures
        match r {
            Some(v) => slab_entries(*s).dom().contains(k) && *v == slab_entries(*s)[k],
            None => !slab_entries(*s).dom().contains(k),
        },
{
    s.get(k)
}

/// Relies on `weldr::parse_raw`: parses the bytes of a source file into its
/// commands, in file order.  Each color meta-command is handed over with its
/// code, name, primary value and opacity; every other command becomes
/// `None`; a parse failure becomes its display message.
#[verifier::external_body]
fn parse_raw_colours(data: &[u8]) -> (r: Result<Vec<Option<ColourDef>>, String>) {
    let cmds = weldr::parse_raw(data).map_err(|e| e.to_string())?;
    let defs = cmds.into_iter().map(|cmd| match cmd {
        weldr::Command::Colour(c) => Some(ColourDef {
            code: c.code, name: c.name, red: c.value.red,
            green: c.value.green, blue: c.value.blue, alpha: c.alpha,
        }),
        _ => None,
    }).collect();
    Ok(defs)
}

/// The configuration palette: color definitions indexed by their code, with
/// the first definition ever loaded as the fallback for unknown codes.
pub struct ColorMap {
    codes: std::collections::HashMap<ColorCode, usize>,
    values: slab::Slab<ColourDef>,
}

impl ColorMap {
    /// Every code index points at an occupied slab key, and the fallback
    /// key is occupied as soon as anything is.
    pub closed spec fn wf(self) -> bool {
        &&& forall|c: ColorCode|
            self.codes@.dom().contains(c) ==> slab_entries(self.values).dom().contains(
                #[trigger] self.codes@[c],
            )
        &&& self.codes@.dom() =~= Set::<ColorCode>::empty() <==> slab_entries(self.values).dom()
            =~= Set::<usize>::empty()
        &&& !(slab_entries(self.values).dom() =~= Set::<usize>::empty()) ==> slab_entries(
            self.values,
        ).dom().contains(0)
    }

    /// Whether any definition was loaded.
    pub closed spec fn spec_is_empty(self) -> bool {
        slab_entries(self.values).dom() =~= Set::<usize>::empty()
    }

    /// Whether the palette defines `code` itself (as opposed to resolving
    /// it through the fallback).
    pub closed spec fn spec_has_code(self, code: ColorCode) -> bool {
        self.codes@.dom().contains(code)
    }

    /// The definition a code resolves to: the one indexed under the code,
    /// or the fallback for a code the palette does not define.
    pub closed spec fn spec_by_code(self, code: ColorCode) -> ColourDef {
        if self.codes@.dom().contains(code) {
            slab_entries(self.values)[self.codes@[code]]
        } else {
            slab_entries(self.values)[0]
        }
    }

    pub fn new() -> (r: ColorMap)
        ensures
            r.wf(),
            r.spec_is_empty(),
    {
        broadcast use vstd::std_specs::hash::group_hash_axioms;

        ColorMap { codes: std::collections::HashMap::new(), values: slab_new() }
    }

    /// Loads one definition; a later definition of the same code replaces
    /// the earlier one, and the very first definition loaded becomes the
    /// fallback.
    pub fn insert_colour(&mut self, def: ColourDef)
        requires
            old(self).wf(),
        ensures
            final(self).wf(),
            !final(self).spec_is_empty(),
            final(self).spec_by_code(def.code) == def,
            final(self).spec_has_code(def.code),
            forall|c: ColorCode| #[trigger]
                final(self).spec_has_code(c) <==> (c == def.code || old(self).spec_has_code(c)),
            forall|c: ColorCode|
                !final(self).spec_has_code(c) ==> #[trigger] final(self).spec_by_code(c) == (
                if old(self).spec_is_empty() {
                    def
                } else {
                    old(self).spec_by_code(c)
                }),
            forall|c: ColorCode|
                c != def.code && old(self).spec_has_code(c)
                    ==> #[trigger] final(self).spec_by_code(c) == old(self).spec_by_code(c),
    {
        broadcast use vstd::std_specs::hash::group_hash_axioms;

        let ghost was_empty = self.spec_is_empty();
        let code = def.code;
        let key = slab_insert(&mut self.values, def);
        self.codes.insert(code, key);
        proof {
            if was_empty {
                assert(key == 0);
            }
        }
    }

    /// Whether any definition was loaded.
    pub fn is_empty(&self) -> (r: bool)
        requires
            self.wf(),
        ensures
            r == self.spec_is_empty(),
    {
        broadcast use vstd::std_specs::hash::group_hash_axioms;

        let r = self.codes.is_empty();
        proof {
            if self.codes@.dom().len() == 0 {
                assert(self.codes@.dom() =~= Set::<ColorCode>::empty());
            }
            if self.codes@.dom() =~= Set::<ColorCode>::empty() {
                assert(self.codes@.dom().len() == 0);
            }
        }
        r
    }

    /// Builds a palette from parsed commands, in order: every color
    /// definition among them is loaded, a later definition of a code
    /// replacing an earlier one, and the first definition becoming the
    /// fallback.
    pub fn build(defs: &Vec<Option<ColourDef>>) -> (r: ColorMap)
        ensures
            r.wf(),
            r.spec_is_empty() <==> first_def(defs@) is None,
            forall|c: ColorCode| r.spec_has_code(c) <==> #[trigger] last_def_for(defs@, c) is Some,
            forall|c: ColorCode|
                #[trigger] last_def_for(defs@, c) matches Some(d) ==> r.spec_by_code(c) == d,
            forall|c: ColorCode|
                last_def_for(defs@, c) is None && first_def(defs@) is Some
                    ==> #[trigger] r.spec_by_code(c) == first_def(defs@)->Some_0,
    {
        let mut map = ColorMap::new();
        let mut i: usize = 0;
        proof {
            assert(defs@.take(0) =~= Seq::<Option<ColourDef>>::empty());
        }
        while i < defs.len()
            invariant
                i <= defs@.len(),
                map.wf(),
                map.spec_is_empty() <==> first_def(defs@.take(i as int)) is None,
                forall|c: ColorCode|
                    map.spec_has_code(c) <==> #[trigger] last_def_for(defs@.take(i as int), c)
                        is Some,
                forall|c: ColorCode|
                    #[trigger] last_def_for(defs@.take(i as int), c) matches Some(d)
                        ==> map.spec_by_code(c) == d,
                forall|c: ColorCode|
                    last_def_for(defs@.take(i as int), c) is None && first_def(
                        defs@.take(i as int),
                    ) is Some ==> #[trigger] map.spec_by_code(c) == first_def(
                        defs@.take(i as int),
                    )->Some_0,
            decreases defs@.len() - i,
        {
            proof {
                lemma_first_def_extend(defs@, i as int);
                assert forall|c: ColorCode|
                    #[trigger] last_def_for(defs@.take(i + 1), c) == (match defs@[i as int] {
                        Some(d) => if d.code == c {
                            Some(d)
                        } else {
                            last_def_for(defs@.take(i as int), c)
                        },
                        None => last_def_for(defs@.take(i as int), c),
                    }) by {
                    lemma_last_def_extend(defs@, i as int, c);
                }
            }
            match &defs[i] {
                Some(def) => {
                    map.insert_colour(def.clone_def());
                },
                None => {},
            }
            i = i + 1;
        }
        proof {
            assert(defs@.take(i as int) =~= defs@);
        }
        map
    }

    /// Parses the bytes of a color configuration file and builds the
    /// palette from the definitions found, as [`ColorMap::build`] does; a
    /// parse failure is returned as its message.
    pub fn parse(data: &[u8]) -> (r: Result<ColorMap, String>)
        ensures
            r matches Ok(map) ==> map.wf(),
    {
        let defs = parse_raw_colours(data)?;
        Ok(ColorMap::build(&defs))
    }

    /// The definition for a code, with the palette's first definition as
    /// the fallback for an unknown code.
    pub fn by_code(&self, code: ColorCode) -> (r: &ColourDef)
        requires
            self.wf(),
            !self.spec_is_empty(),
        ensures
            *r == self.spec_by_code(code),
    {
        broadcast use vstd::std_specs::hash::group_hash_axioms;

        let key: usize = match self.codes.get(&code) {
            Some(k) => *k,
            None => 0,
        };
        match slab_get(&self.values, key) {
            Some(v) => v,
            None => {
                proof {
                    assert(false);
                }
                unreached()
            },
        }
    }
}

} // verus!
