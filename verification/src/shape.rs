//! Vertex batching: an append-only list of textured quads, and the
//! grow-only device vertex store that uploads it.

use vstd::prelude::*;

use crate::FP_ONE;

verus! {

/// Bound on every coordinate handed to the rect builders, loose enough
/// for any caller and tight enough that corner sums stay inside `i64`.
pub const VERT_LIMIT: i64 = 0x2000_0000_0000_0000;

/// One textured vertex: fixed-point 2D position and texture coordinate.
/// Six of these make a quad (two triangles); there is no index buffer.
#[derive(Copy, Clone, PartialEq, Eq, Debug)]
pub struct Vertex {
    pub pos: (i64, i64),
    pub texture_uv: (i64, i64),
}

impl Vertex {
    pub fn textured(x: i64, y: i64, u: i64, v: i64) -> (r: Vertex)
        ensures
            r == (Vertex { pos: (x, y), texture_uv: (u, v) }),
    {
        Vertex { pos: (x, y), texture_uv: (u, v) }
    }

    pub fn plain(x: i64, y: i64) -> (r: Vertex)
        ensures
            r == (Vertex { pos: (x, y), texture_uv: (0int as i64, 0int as i64) }),
    {
        Vertex { pos: (x, y), texture_uv: (0, 0) }
    }
}

/// The vertex every padding slot holds: a degenerate point at the origin.
pub open spec fn origin_vertex() -> Vertex {
    Vertex { pos: (0int as i64, 0int as i64), texture_uv: (0int as i64, 0int as i64) }
}

/// A vertex built from unbounded spec-level integers; callers only apply
/// it to values already shown to fit in `i64`.
pub open spec fn vert_at(x: int, y: int, u: int, v: int) -> Vertex {
    Vertex { pos: (x as i64, y as i64), texture_uv: (u as i64, v as i64) }
}

/// True when `v` is small enough to take part in corner sums.
pub open spec fn coord_ok(v: i64) -> bool {
    -VERT_LIMIT <= v <= VERT_LIMIT
}

/// The six vertices of an axis-aligned rect at `pos` of extent `size`,
/// textured with the sub-region `uvr` of the unit texture square after
/// the vertical flip (`v = 0` is visually the top of a texture).
/// Winding in unit-rect terms: (0,0)-(1,0)-(0,1), (1,0)-(1,1)-(0,1).
pub open spec fn rect_uv_vertices(
    pos: (i64, i64),
    size: (i64, i64),
    uvr: (i64, i64, i64, i64),
) -> Seq<Vertex> {
    let u0 = uvr.0 as int;
    let v0 = FP_ONE - uvr.1;
    let uw = uvr.2 as int;
    let vh = -(uvr.3 as int);
    seq![
        vert_at(pos.0 as int, pos.1 as int, u0, v0),
        vert_at(pos.0 + size.0, pos.1 as int, u0 + uw, v0),
        vert_at(pos.0 as int, pos.1 + size.1, u0, v0 + vh),
        vert_at(pos.0 + size.0, pos.1 as int, u0 + uw, v0),
        vert_at(pos.0 + size.0, pos.1 + size.1, u0 + uw, v0 + vh),
        vert_at(pos.0 as int, pos.1 + size.1, u0, v0 + vh),
    ]
}

/// The six vertices of a rect mapped with the full texture square.
pub open spec fn rect_vertices(pos: (i64, i64), size: (i64, i64)) -> Seq<Vertex> {
    rect_uv_vertices(pos, size, (0int as i64, 0int as i64, FP_ONE, FP_ONE))
}

/// An ordered sequence of vertices; insertion order is draw order. It is
/// cleared and rebuilt every frame by whichever component draws.
#[derive(Clone)]
pub struct Shape {
    pub vertices: Vec<Vertex>,
}

impl Shape {
    pub fn new() -> (r: Shape)
        ensures
            r.vertices@ == Seq::<Vertex>::empty(),
    {
        Shape { vertices: Vec::new() }
    }

    /// Empties the sequence; capacity is untouched.
    pub fn clear(&mut self)
        ensures
            final(self).vertices@ == Seq::<Vertex>::empty(),
    {
        self.vertices.clear();
    }

    pub fn add_vert(&mut self, vertex: Vertex)
        ensures
            final(self).vertices@ == old(self).vertices@.push(vertex),
    {
        self.vertices.push(vertex);
    }

    /// Appends the two triangles of an axis-aligned rect, texturing it
    /// with the sub-region `uv_rect` of the texture after the vertical
    /// flip. A negative size is not rejected: it yields a mirrored or
    /// degenerate rect, exactly as the vertex formula says.
    pub fn add_uv_rect(
        &mut self,
        pos: (i64, i64),
        size: (i64, i64),
        uv_rect: (i64, i64, i64, i64),
    )
        requires
            coord_ok(pos.0),
            coord_ok(pos.1),
            coord_ok(size.0),
            coord_ok(size.1),
            coord_ok(uv_rect.0),
            coord_ok(uv_rect.1),
            coord_ok(uv_rect.2),
            coord_ok(uv_rect.3),
        ensures
            final(self).vertices@ == old(self).vertices@ + rect_uv_vertices(pos, size, uv_rect),
    {
        let uv: (i64, i64, i64, i64) = (uv_rect.0, FP_ONE - uv_rect.1, uv_rect.2, -uv_rect.3);
        self.add_vert(Vertex::textured(pos.0, pos.1, uv.0, uv.1));
        self.add_vert(Vertex::textured(pos.0 + size.0, pos.1, uv.0 + uv.2, uv.1));
        self.add_vert(Vertex::textured(pos.0, pos.1 + size.1, uv.0, uv.1 + uv.3));
        self.add_vert(Vertex::textured(pos.0 + size.0, pos.1, uv.0 + uv.2, uv.1));
        self.add_vert(Vertex::textured(pos.0 + size.0, pos.1 + size.1, uv.0 + uv.2, uv.1 + uv.3));
        self.add_vert(Vertex::textured(pos.0, pos.1 + size.1, uv.0, uv.1 + uv.3));
        proof {
            assert(self.vertices@ =~= old(self).vertices@ + rect_uv_vertices(pos, size, uv_rect));
        }
    }

    /// Appends a rect mapped with the full `[0,1] x [0,1]` texture range.
    pub fn add_rect(&mut self, pos: (i64, i64), size: (i64, i64))
        requires
            coord_ok(pos.0),
            coord_ok(pos.1),
            coord_ok(size.0),
            coord_ok(size.1),
        ensures
            final(self).vertices@ == old(self).vertices@ + rect_vertices(pos, size),
    {
        self.add_uv_rect(pos, size, (0, 0, FP_ONE, FP_ONE))
    }
}

/// Default number of vertex slots a fresh device store holds.
pub const DEFAULT_SHAPEBUFFER_SIZE: usize = 32;

/// The device-side vertex store a `Shape` is uploaded through. `store`
/// models the contents of the device vertex buffer: the shape drawn
/// last, padded to the store's capacity with degenerate origin vertices
/// so stale geometry from an earlier, larger frame never renders. The
/// capacity only grows, and never below the default.
pub struct ShapeBuffer {
    pub current_size: usize,
    pub store: Vec<Vertex>,
}

impl ShapeBuffer {
    pub open spec fn wf(&self) -> bool {
        &&& self.store@.len() == self.current_size
        &&& self.current_size >= DEFAULT_SHAPEBUFFER_SIZE
    }

    /// A fresh store of the default capacity, all slots degenerate.
    pub fn new() -> (r: ShapeBuffer)
        ensures
            r.wf(),
            r.current_size == DEFAULT_SHAPEBUFFER_SIZE,
            r.store@ == Seq::new(DEFAULT_SHAPEBUFFER_SIZE as nat, |i: int| origin_vertex()),
    {
        let mut r = ShapeBuffer { current_size: DEFAULT_SHAPEBUFFER_SIZE, store: Vec::new() };
        r.reallocate();
        r
    }

    /// Models reallocating the device buffer at the tracked capacity:
    /// no old contents survive, every slot starts degenerate.
    fn reallocate(&mut self)
        ensures
            final(self).current_size == old(self).current_size,
            final(self).store@ == Seq::new(
                old(self).current_size as nat,
                |i: int| origin_vertex(),
            ),
    {
        self.store = Vec::new();
        while self.store.len() < self.current_size
            invariant
                self.current_size == old(self).current_size,
                self.store@.len() <= self.current_size,
                forall|i: int| 0 <= i < self.store@.len() ==> self.store@[i] == origin_vertex(),
            decreases self.current_size - self.store@.len(),
        {
            self.store.push(Vertex::plain(0, 0));
        }
        proof {
            assert(self.store@ =~= Seq::new(
                old(self).current_size as nat,
                |i: int| origin_vertex(),
            ));
        }
    }

    /// Uploads `shape` into the store: grows the capacity to the shape's
    /// length when it is exceeded (never shrinks), then writes the shape
    /// followed by degenerate padding up to the capacity.
    pub fn update(&mut self, shape: &Shape)
        requires
            old(self).wf(),
        ensures
            final(self).wf(),
            final(self).current_size as int == capacity_after(
                old(self).current_size as int,
                seq![shape.vertices@.len() as int],
            ),
            final(self).store@.len() == final(self).current_size,
            forall|i: int|
                0 <= i < shape.vertices@.len() ==> final(self).store@[i] == shape.vertices@[i],
            forall|i: int|
                shape.vertices@.len() <= i < final(self).store@.len() ==> final(self).store@[i]
                    == origin_vertex(),
    {
        if shape.vertices.len() > self.current_size {
            self.current_size = shape.vertices.len();
            self.reallocate();
        }
        let ghost target: usize = self.current_size;
        self.store.clear();
        let mut i: usize = 0;
        while i < shape.vertices.len()
            invariant
                i <= shape.vertices@.len(),
                self.current_size == target,
                shape.vertices@.len() <= self.current_size,
                self.store@ == shape.vertices@.take(i as int),
            decreases shape.vertices@.len() - i,
        {
            self.store.push(shape.vertices[i]);
            proof {
                assert(self.store@ =~= shape.vertices@.take(i + 1));
            }
            i = i + 1;
        }
        proof {
            assert(self.store@ =~= shape.vertices@);
        }
        while self.store.len() < self.current_size
            invariant
                self.current_size == target,
                shape.vertices@.len() <= self.store@.len() <= self.current_size,
                forall|j: int| 0 <= j < shape.vertices@.len() ==> self.store@[j]
                    == shape.vertices@[j],
                forall|j: int| shape.vertices@.len() <= j < self.store@.len() ==> self.store@[j]
                    == origin_vertex(),
            decreases self.current_size - self.store@.len(),
        {
            self.store.push(Vertex::plain(0, 0));
        }
        proof {
            let c0 = old(self).current_size as int;
            let lens = seq![shape.vertices@.len() as int];
            assert(lens.drop_last() =~= Seq::<int>::empty());
            assert(capacity_after(c0, Seq::<int>::empty()) == c0);
            assert(lens.last() == shape.vertices@.len() as int);
            assert(capacity_after(c0, lens) == if lens.last() > c0 {
                lens.last()
            } else {
                c0
            });
        }
    }

    /// One draw call: uploads the shape and reports how many vertices
    /// the device is told to draw — exactly the shape's length, as a raw
    /// triangle list, so the padded tail is never rendered.
    pub fn draw(&mut self, shape: &Shape) -> (n: usize)
        requires
            old(self).wf(),
        ensures
            final(self).wf(),
            n == shape.vertices@.len(),
            final(self).current_size as int == capacity_after(
                old(self).current_size as int,
                seq![shape.vertices@.len() as int],
            ),
            forall|i: int|
                0 <= i < shape.vertices@.len() ==> final(self).store@[i] == shape.vertices@[i],
            forall|i: int|
                shape.vertices@.len() <= i < final(self).store@.len() ==> final(self).store@[i]
                    == origin_vertex(),
    {
        self.update(shape);
        shape.vertices.len()
    }
}

/// The capacity a store that started at `start` tracks after draws of
/// the given buffer lengths: each draw raises it to the drawn length
/// when that is larger, and nothing ever lowers it.
pub open spec fn capacity_after(start: int, lens: Seq<int>) -> int
    decreases lens.len(),
{
    if lens.len() == 0 {
        start
    } else {
        let prev = capacity_after(start, lens.drop_last());
        if lens.last() > prev {
            lens.last()
        } else {
            prev
        }
    }
}

/// Capacity is the maximum of the start value and every drawn length:
/// it dominates all of them, and is attained by one of them.
pub proof fn lemma_capacity_is_max(start: int, lens: Seq<int>)
    ensures
        capacity_after(start, lens) >= start,
        forall|j: int| 0 <= j < lens.len() ==> lens[j] <= capacity_after(start, lens),
        capacity_after(start, lens) == start || exists|j: int|
            0 <= j < lens.len() && lens[j] == capacity_after(start, lens),
    decreases lens.len(),
{
    if lens.len() > 0 {
        lemma_capacity_is_max(start, lens.drop_last());
        assert(forall|j: int| 0 <= j < lens.len() - 1 ==> lens[j] == lens.drop_last()[j]);
        if capacity_after(start, lens) != start
            && capacity_after(start, lens) == capacity_after(start, lens.drop_last()) {
            let k = choose|k: int|
                0 <= k < lens.drop_last().len() && lens.drop_last()[k] == capacity_after(
                    start,
                    lens.drop_last(),
                );
            assert(lens[k] == capacity_after(start, lens));
        }
    }
}

/// Capacity never shrinks: after further draws it is at least what it
/// was after any prefix of the draw history.
pub proof fn lemma_capacity_monotonic(start: int, lens: Seq<int>, i: int)
    requires
        0 <= i <= lens.len(),
    ensures
        capacity_after(start, lens.take(i)) <= capacity_after(start, lens),
    decreases lens.len(),
{
    if i == lens.len() {
        assert(lens.take(i) =~= lens);
    } else {
        lemma_capacity_monotonic(start, lens.drop_last(), i);
        assert(lens.drop_last().take(i) =~= lens.take(i));
    }
}

/// Textured and plain rects agree: a rect mapped with the whole texture
/// square is vertex-for-vertex the rect that `add_rect` appends.
pub proof fn lemma_full_uv_rect_is_plain_rect(pos: (i64, i64), size: (i64, i64))
    ensures
        rect_uv_vertices(pos, size, (0int as i64, 0int as i64, FP_ONE, FP_ONE)) == rect_vertices(
            pos,
            size,
        ),
{
}

} // verus!
