//! Page-writer support: which fill-color changes a run of polygons needs.
//!
//! The page writer sets the fill color only when it differs from the one
//! already in effect; the stream starts with white in effect.

use vstd::prelude::*;

verus! {

/// An already-resolved fill color, as its three channel values.
pub type Rgb = (u8, u8, u8);

/// The fill color in effect before any polygon is drawn.
pub open spec fn initial_rgb() -> Rgb {
    (255u8, 255u8, 255u8)
}

/// For each polygon color in sequence, the color operation its drawing
/// needs: the color itself when it differs from the one in effect, nothing
/// when it is already in effect.
pub open spec fn updates_spec(colors: Seq<Rgb>, current: Rgb) -> Seq<Option<Rgb>>
    decreases colors.len(),
{
    if colors.len() == 0 {
        Seq::<Option<Rgb>>::empty()
    } else if colors[0] == current {
        seq![None::<Rgb>] + updates_spec(colors.drop_first(), current)
    } else {
        seq![Some(colors[0])] + updates_spec(colors.drop_first(), colors[0])
    }
}

/// The color operation to emit before each polygon of a run, as
/// [`updates_spec`] from a white start says.
pub fn color_updates(colors: &Vec<Rgb>) -> (r: Vec<Option<Rgb>>)
    ensures
        r@ == updates_spec(colors@, initial_rgb()),
{
    let mut out: Vec<Option<Rgb>> = Vec::new();
    let mut current: Rgb = (255, 255, 255);
    let mut i: usize = 0;
    proof {
        assert(colors@.skip(0) =~= colors@);
    }
    while i < colors.len()
        invariant
            i <= colors@.len(),
            out@ + updates_spec(colors@.skip(i as int), current) == updates_spec(
                colors@,
                initial_rgb(),
            ),
        decreases colors@.len() - i,
    {
        proof {
            assert(colors@.skip(i as int)[0] == colors@[i as int]);
            assert(colors@.skip(i as int).drop_first() =~= colors@.skip(i + 1));
        }
        let c = colors[i];
        let ghost pre = out@;
        if c.0 == current.0 && c.1 == current.1 && c.2 == current.2 {
            out.push(None);
            proof {
                assert(pre + (seq![None::<Rgb>] + updates_spec(colors@.skip(i + 1), current)) =~= out@
                    + updates_spec(colors@.skip(i + 1), current));
            }
        } else {
            out.push(Some(c));
            current = c;
            proof {
                assert(pre + (seq![Some(colors@[i as int])] + updates_spec(
                    colors@.skip(i + 1),
                    current,
                )) =~= out@ + updates_spec(colors@.skip(i + 1), current));
            }
        }
        i = i + 1;
    }
    proof {
        assert(colors@.skip(i as int) =~= Seq::<Rgb>::empty());
        assert(out@ + Seq::<Option<Rgb>>::empty() =~= out@);
    }
    out
}

} // verus!
