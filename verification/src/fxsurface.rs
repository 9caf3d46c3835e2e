//! Effect compositing: a pair of equally sized off-screen surfaces that
//! ping-pong through shader effect passes, and the uniform sets the
//! passes are drawn with.

use vstd::prelude::*;

use crate::FP_ONE;
use crate::shape::{Shape, rect_vertices};

verus! {

/// Corner and extent of the clip-space rect an effect pass draws:
/// it spans the whole space, from (-1, 1) by (2, -2), in fixed point.
pub const CLIP_RECT_X: i64 = -FP_ONE;

pub const CLIP_RECT_Y: i64 = FP_ONE;

pub const CLIP_RECT_W: i64 = 2 * FP_ONE;

pub const CLIP_RECT_H: i64 = -2 * FP_ONE;

/// Which of the pair's two color targets a handle names. The rendering
/// shell owns one real texture per identity.
#[derive(Copy, Clone, PartialEq, Eq, Structural, Debug)]
pub enum SurfaceId {
    First,
    Second,
}

/// The identity a swap turns a handle into.
pub open spec fn other_surface(s: SurfaceId) -> SurfaceId {
    match s {
        SurfaceId::First => SurfaceId::Second,
        SurfaceId::Second => SurfaceId::First,
    }
}

/// One shader-parameter value: a scalar, a 3-vector (both fixed-point,
/// `FP_ONE` standing for 1.0), or a reference to a sampled texture,
/// named by the slot the rendering shell keeps it under.
#[derive(Copy, Clone, PartialEq, Eq, Debug)]
pub enum UniformValue {
    Scalar(i64),
    Vec3((i64, i64, i64)),
    TextureRef(SurfaceId),
}

/// The value a table binds to `name`: the last entry wins, as a fresh
/// insert under an existing name replaces the old binding.
pub open spec fn uniform_lookup(
    entries: Seq<(Seq<char>, UniformValue)>,
    name: Seq<char>,
) -> Option<UniformValue>
    decreases entries.len(),
{
    if entries.len() == 0 {
        None
    } else if entries.last().0 == name {
        Some(entries.last().1)
    } else {
        uniform_lookup(entries.drop_last(), name)
    }
}

/// A mapping from shader-parameter name to value, built fresh for every
/// draw call; the order entries were added in is irrelevant to a shader,
/// so what matters of a table is only what each name binds to.
pub struct UniformTable {
    pub entries: Vec<(String, UniformValue)>,
}

impl UniformTable {
    /// The entries with their names read as character sequences.
    pub open spec fn table_view(&self) -> Seq<(Seq<char>, UniformValue)> {
        self.entries@.map_values(|e: (String, UniformValue)| (e.0@, e.1))
    }

    pub fn new() -> (r: UniformTable)
        ensures
            r.table_view() == Seq::<(Seq<char>, UniformValue)>::empty(),
    {
        let r = UniformTable { entries: Vec::new() };
        proof {
            assert(r.table_view() =~= Seq::<(Seq<char>, UniformValue)>::empty());
        }
        r
    }

    /// Binds `name` to `val`, replacing any earlier binding of `name`
    /// and leaving every other name bound as before.
    pub fn add(&mut self, name: String, val: UniformValue)
        ensures
            final(self).table_view() == old(self).table_view().push((name@, val)),
            uniform_lookup(final(self).table_view(), name@) == Some(val),
            forall|n: Seq<char>|
                n != name@ ==> uniform_lookup(final(self).table_view(), n) == uniform_lookup(
                    old(self).table_view(),
                    n,
                ),
    {
        let ghost name_view = name@;
        self.entries.push((name, val));
        proof {
            assert(self.table_view() =~= old(self).table_view().push((name_view, val)));
            assert(self.table_view().drop_last() =~= old(self).table_view());
        }
    }
}

/// A factor the device multiplies one side of a blend with.
#[derive(Copy, Clone, PartialEq, Eq, Structural, Debug)]
pub enum BlendFactor {
    One,
    SourceAlpha,
    OneMinusSourceAlpha,
}

/// An additive blend: `src * source + dst * destination`, applied to
/// the color and alpha channels alike.
#[derive(Copy, Clone, PartialEq, Eq, Structural, Debug)]
pub struct BlendParams {
    pub source: BlendFactor,
    pub destination: BlendFactor,
}

/// Why an effect pass failed: the one draw call inside it was refused
/// by the graphics device.
#[derive(Copy, Clone, PartialEq, Eq, Structural, Debug)]
pub enum EffectError {
    DrawFailed,
}

/// A pair of same-sized off-screen color targets. Exactly one is the
/// logical "front" at any time; an effect pass reads the front, writes
/// the back, and swaps the two — but only once its draw succeeded.
pub struct FxBuffer {
    pub front: SurfaceId,
    pub size: (u32, u32),
}

impl FxBuffer {
    /// Both surfaces freshly allocated at `size`; the first is front.
    pub fn new(size: (u32, u32)) -> (r: FxBuffer)
        ensures
            r.front == SurfaceId::First,
            r.size == size,
    {
        FxBuffer { front: SurfaceId::First, size }
    }

    /// Reallocates both surfaces at the new size, dropping their
    /// contents; which surface is front does not change.
    pub fn resize(&mut self, size: (u32, u32))
        ensures
            final(self).size == size,
            final(self).front == old(self).front,
    {
        self.size = size;
    }

    /// The surface a frame's raw geometry must be painted into: the
    /// current front. The caller gets it for exactly one drawing pass
    /// and must finish before the pair is used for anything else.
    pub fn draw_to(&self) -> (r: SurfaceId)
        ensures
            r == self.front,
    {
        self.front
    }

    /// The surface an effect pass writes: the current back.
    pub fn back(&self) -> (r: SurfaceId)
        ensures
            r == other_surface(self.front),
    {
        match self.front {
            SurfaceId::First => SurfaceId::Second,
            SurfaceId::Second => SurfaceId::First,
        }
    }

    /// The geometry of one effect pass: a single rect covering the whole
    /// clip space, `(-1, 1)` with extent `(2, -2)` in fixed point.
    pub fn effect_shape() -> (r: Shape)
        ensures
            r.vertices@ == rect_vertices((CLIP_RECT_X, CLIP_RECT_Y), (CLIP_RECT_W, CLIP_RECT_H)),
    {
        let mut shape = Shape::new();
        shape.add_rect((CLIP_RECT_X, CLIP_RECT_Y), (CLIP_RECT_W, CLIP_RECT_H));
        proof {
            assert(shape.vertices@ =~= rect_vertices(
                (CLIP_RECT_X, CLIP_RECT_Y),
                (CLIP_RECT_W, CLIP_RECT_H),
            ));
        }
        shape
    }

    /// The color the back surface is cleared to before an effect pass
    /// draws into it: fully transparent black, RGBA in fixed point, so
    /// nothing of an earlier pass shows through.
    pub fn effect_clear_color() -> (r: (i64, i64, i64, i64))
        ensures
            r == (0int as i64, 0int as i64, 0int as i64, 0int as i64),
    {
        (0, 0, 0, 0)
    }

    /// The blend an effect pass draws with: `src * 1 + dst * (1 -
    /// src_alpha)`, the premultiplied accumulation that keeps the base
    /// layer from being attenuated twice.
    pub fn effect_blend() -> (r: BlendParams)
        ensures
            r == (BlendParams {
                source: BlendFactor::One,
                destination: BlendFactor::OneMinusSourceAlpha,
            }),
    {
        BlendParams { source: BlendFactor::One, destination: BlendFactor::OneMinusSourceAlpha }
    }

    /// The uniforms one effect pass is drawn with: a copy of the
    /// caller's set plus the current front surface bound as
    /// `source_texture`, so the pass consumes the previous pass's
    /// output.
    pub fn effect_uniforms(&self, base: &UniformTable) -> (r: UniformTable)
        ensures
            r.table_view() == base.table_view().push(
                ("source_texture"@, UniformValue::TextureRef(self.front)),
            ),
            uniform_lookup(r.table_view(), "source_texture"@) == Some(
                UniformValue::TextureRef(self.front),
            ),
    {
        let mut merged = UniformTable::new();
        let mut i: usize = 0;
        while i < base.entries.len()
            invariant
                i <= base.entries@.len(),
                merged.table_view() == base.table_view().take(i as int),
            decreases base.entries@.len() - i,
        {
            let name = base.entries[i].0.clone();
            let val = base.entries[i].1;
            merged.add(name, val);
            proof {
                assert(merged.table_view() =~= base.table_view().take(i + 1));
            }
            i = i + 1;
        }
        proof {
            assert(merged.table_view() =~= base.table_view());
        }
        merged.add("source_texture".to_owned(), UniformValue::TextureRef(self.front));
        merged
    }

    /// Ends one effect pass. The rendering shell has cleared the back
    /// surface to `effect_clear_color` and drawn the full-screen rect
    /// from front into back with `effect_blend`;
    /// `draw_ok` says whether that draw succeeded. On success the pair
    /// swaps, so the surface that was back becomes front; on failure
    /// nothing changes and the error is surfaced — never a half-applied
    /// swap.
    pub fn effect(&mut self, draw_ok: bool) -> (r: Result<(), EffectError>)
        ensures
            final(self).size == old(self).size,
            draw_ok ==> r == Ok::<(), EffectError>(()) && final(self).front == other_surface(
                old(self).front,
            ),
            !draw_ok ==> r == Err::<(), EffectError>(EffectError::DrawFailed) && final(self).front
                == old(self).front,
    {
        if draw_ok {
            self.front = match self.front {
                SurfaceId::First => SurfaceId::Second,
                SurfaceId::Second => SurfaceId::First,
            };
            Ok(())
        } else {
            Err(EffectError::DrawFailed)
        }
    }
}

/// Two effect passes restore the starting front/back identities: after
/// any even number of successful passes the pair stands as it began.
pub proof fn lemma_swap_involution(s: SurfaceId)
    ensures
        other_surface(other_surface(s)) == s,
{
}

} // verus!
