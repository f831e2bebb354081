use vstd::prelude::*;

use crate::mesh_cache::{
    entries_wf, keeps_entries, key_code, point_in_range, CacheKey, Depth, GlyphMesh, GlyphPoint, MeshCache,
    GLYPH_COORD_LIMIT,
};
use crate::text_mesh::Quality;

verus! {

/// Coordinates of the output are integers in units of 1/(144 * 100 * 1000) of
/// the scene unit: glyph coordinates are in thousandths of an em, a size
/// magnitude `m` stands for the scalar `m / 144`, and the spacing fractions
/// are hundredths. With this unit every layout quantity is exact.
pub const OUTPUT_UNITS_PER_SCENE_UNIT: i64 = 14400000;

/// The pen may not leave [-2^60, 2^60] in either axis.
pub const PEN_LIMIT: i64 = 1152921504606846976;

/// Columns between two tab stops.
pub const TAB_WIDTH: u8 = 4;

/// A vertex of the output mesh, in output units.
pub type Point = (i64, i64, i64);

/// Why a mesh could not be built.
#[derive(Clone, Copy, Debug, PartialEq, Eq, Structural)]
pub enum TextMeshError {
    /// The font size is `Auto`, which is not supported.
    FontSizeUnresolved,
    /// No depth (flat output) or an `Auto` depth was asked for.
    DepthUnresolved,
    /// The width or the height of the box is `Auto`.
    SizeUnresolved,
    /// Neither the character nor the fallback character could be tessellated.
    TessellationFailed,
    /// The pen left the coordinate range, or the vertices outgrew `u32` indices.
    MeshTooLarge,
}

/// The resolved numbers one layout pass works with, in output units.
#[derive(Clone, Copy, Debug, PartialEq, Eq, Structural)]
pub struct LayoutParams {
    /// Factor from glyph units to output units (the size scalar).
    pub scale: i64,
    /// The size scalar itself, in output units.
    pub unit: i64,
    pub spacing_x: i64,
    pub spacing_y: i64,
    /// How far a space moves the pen.
    pub space_advance: i64,
    pub line_start: i64,
    pub line_end: i64,
    /// Pen height of the first row.
    pub top: i64,
    pub wrapping: bool,
    pub depth: Depth,
    pub quality: Quality,
}

impl LayoutParams {
    /// Bounds that keep every intermediate of a layout step inside `i64`:
    /// 2^39 for the scale, 2^49 for lengths, 2^50 for the first row's height.
    pub open spec fn wf(&self) -> bool {
        &&& 0 <= self.scale <= 549755813888
        &&& 0 <= self.unit <= 562949953421312
        &&& 0 <= self.spacing_x <= 562949953421312
        &&& 0 <= self.spacing_y <= 562949953421312
        &&& 0 <= self.space_advance <= 562949953421312
        &&& -562949953421312 <= self.line_start <= 562949953421312
        &&& -562949953421312 <= self.line_end <= 562949953421312
        &&& -1125899906842624 <= self.top <= 1125899906842624
    }
}

/// Parameters for a font size, box width and height and depth magnitude.
pub open spec fn params_from(
    font: u32,
    width: u32,
    height: u32,
    depth: u32,
    wrapping: bool,
    quality: Quality,
) -> LayoutParams {
    LayoutParams {
        scale: (font * 100) as i64,
        unit: (font * 100000) as i64,
        spacing_x: (font * 8000) as i64,
        spacing_y: (font * 10000) as i64,
        space_advance: (font * 28000) as i64,
        line_start: (-(width * 50000)) as i64,
        line_end: (width * 50000) as i64,
        top: (height * 50000 - font * 100000) as i64,
        wrapping,
        depth: Depth((depth * 100 / 144) as u32),
        quality,
    }
}

pub fn make_params(
    font: u32,
    width: u32,
    height: u32,
    depth: u32,
    wrapping: bool,
    quality: Quality,
) -> (p: LayoutParams)
    ensures
        p == params_from(font, width, height, depth, wrapping, quality),
        p.wf(),
{
    let f = font as i64;
    let w = width as i64;
    let h = height as i64;
    LayoutParams {
        scale: f * 100,
        unit: f * 100000,
        spacing_x: f * 8000,
        spacing_y: f * 10000,
        space_advance: f * 28000,
        line_start: -(w * 50000),
        line_end: w * 50000,
        top: h * 50000 - f * 100000,
        wrapping,
        depth: Depth(((depth as u64) * 100 / 144) as u32),
        quality,
    }
}

/// The pen of a layout pass: position, height of the current row so far,
/// and column within the current tab stop.
#[derive(Clone, Copy, Debug, PartialEq, Eq, Structural)]
pub struct Pen {
    pub x: i64,
    pub y: i64,
    pub row_height: i64,
    pub column: u8,
}

/// The state of a layout pass after some characters.
pub struct LayoutState {
    pub pen: Pen,
    pub vertices: Seq<Point>,
    pub normals: Seq<GlyphPoint>,
    pub indices: Seq<u32>,
}

pub open spec fn in_pen_range(v: int) -> bool {
    -PEN_LIMIT <= v <= PEN_LIMIT
}

/// What every reachable state satisfies.
pub open spec fn state_ok(st: LayoutState) -> bool {
    &&& in_pen_range(st.pen.x as int)
    &&& in_pen_range(st.pen.y as int)
    &&& 0 <= st.pen.row_height <= PEN_LIMIT
    &&& st.pen.column < TAB_WIDTH
    &&& st.vertices.len() <= u32::MAX
    &&& st.normals.len() == st.vertices.len()
    &&& st.indices.len() % 3 == 0
    &&& forall|i: int| 0 <= i < st.indices.len() ==> (#[trigger] st.indices[i]) < st.vertices.len()
}

pub open spec fn initial_state(p: LayoutParams) -> LayoutState {
    LayoutState {
        pen: Pen { x: p.line_start, y: p.top, row_height: 0, column: 0 },
        vertices: Seq::empty(),
        normals: Seq::empty(),
        indices: Seq::empty(),
    }
}

/// Characters that move the pen without a mesh.
pub open spec fn is_blank(c: char) -> bool {
    c == ' ' || c == '\t'
}

pub open spec fn min(a: int, b: int) -> int {
    if a <= b {
        a
    } else {
        b
    }
}

pub open spec fn max(a: int, b: int) -> int {
    if a >= b {
        a
    } else {
        b
    }
}

/// (xmin, xmax, ymin, ymax) of the points; all zero for no points.
pub open spec fn bbox(vs: Seq<GlyphPoint>) -> (int, int, int, int)
    decreases vs.len(),
{
    if vs.len() == 0 {
        (0, 0, 0, 0)
    } else if vs.len() == 1 {
        (vs[0].0 as int, vs[0].0 as int, vs[0].1 as int, vs[0].1 as int)
    } else {
        let b = bbox(vs.drop_last());
        let v = vs.last();
        (min(b.0, v.0 as int), max(b.1, v.0 as int), min(b.2, v.1 as int), max(b.3, v.1 as int))
    }
}

/// A glyph vertex moved to the pen: scaled, its left edge at the pen.
pub open spec fn place_point(p: LayoutParams, pen: Pen, xmin: int, v: GlyphPoint) -> Point {
    (
        (v.0 * p.scale + pen.x - xmin * p.scale) as i64,
        (v.1 * p.scale + pen.y) as i64,
        (v.2 * p.scale) as i64,
    )
}

pub open spec fn placed(p: LayoutParams, pen: Pen, xmin: int, vs: Seq<GlyphPoint>) -> Seq<Point> {
    vs.map_values(|v: GlyphPoint| place_point(p, pen, xmin, v))
}

/// Glyph-local indices moved past the `offset` vertices already emitted.
pub open spec fn shifted(is: Seq<u32>, offset: int) -> Seq<u32> {
    is.map_values(|i: u32| (i + offset) as u32)
}

/// How far placing glyph `g` moves the pen: its scaled width plus spacing.
pub open spec fn glyph_advance(p: LayoutParams, g: GlyphMesh) -> int {
    (bbox(g.vertices@).1 - bbox(g.vertices@).0) * p.scale + p.spacing_x
}

/// Whether the pen at `x` leaves no room for another character on the row.
pub open spec fn wraps_at(p: LayoutParams, x: int) -> bool {
    p.wrapping && x + p.unit + p.spacing_x > p.line_end
}

/// Places glyph `g` at the pen, then advances (and possibly wraps) the pen.
pub open spec fn place_glyph(p: LayoutParams, st: LayoutState, g: GlyphMesh) -> Result<
    LayoutState,
    TextMeshError,
> {
    let b = bbox(g.vertices@);
    let offset = st.vertices.len();
    let row = max(st.pen.row_height as int, (b.3 - b.2) * p.scale);
    let x = st.pen.x + glyph_advance(p, g);
    let wrap = wraps_at(p, x);
    let nx = if wrap {
        p.line_start as int
    } else {
        x
    };
    let ny = if wrap {
        st.pen.y - (row + p.spacing_y)
    } else {
        st.pen.y as int
    };
    if offset + g.vertices@.len() > u32::MAX || !in_pen_range(nx) || !in_pen_range(ny) {
        Err(TextMeshError::MeshTooLarge)
    } else {
        Ok(
            LayoutState {
                pen: Pen {
                    x: nx as i64,
                    y: ny as i64,
                    row_height: if wrap {
                        0
                    } else {
                        row as i64
                    },
                    column: if wrap {
                        0
                    } else {
                        ((st.pen.column + 1) % (TAB_WIDTH as int)) as u8
                    },
                },
                vertices: st.vertices + placed(p, st.pen, b.0, g.vertices@),
                normals: st.normals + g.normals@,
                indices: st.indices + shifted(g.indices@, offset as int),
            },
        )
    }
}

/// Moves the pen by `advance` and `columns` columns (mod the tab width).
pub open spec fn move_pen(st: LayoutState, advance: int, column: int) -> Result<
    LayoutState,
    TextMeshError,
> {
    let nx = st.pen.x + advance;
    if !in_pen_range(nx) {
        Err(TextMeshError::MeshTooLarge)
    } else {
        Ok(
            LayoutState {
                pen: Pen {
                    x: nx as i64,
                    y: st.pen.y,
                    row_height: st.pen.row_height,
                    column: column as u8,
                },
                vertices: st.vertices,
                normals: st.normals,
                indices: st.indices,
            },
        )
    }
}

/// One character of layout: a space or tab moves the pen; any other
/// character places its cached mesh.
pub open spec fn layout_step(
    p: LayoutParams,
    glyphs: Map<u64, GlyphMesh>,
    st: LayoutState,
    c: char,
) -> Result<LayoutState, TextMeshError> {
    if c == ' ' {
        move_pen(st, p.space_advance as int, (st.pen.column + 1) % (TAB_WIDTH as int))
    } else if c == '\t' {
        move_pen(st, p.space_advance * (TAB_WIDTH - st.pen.column), 0)
    } else if !glyphs.contains_key(key_code(c, p.depth.0)) {
        Err(TextMeshError::TessellationFailed)
    } else {
        place_glyph(p, st, glyphs[key_code(c, p.depth.0)])
    }
}

/// Layout of a whole character sequence, stopping at the first failure.
pub open spec fn layout_chars(p: LayoutParams, glyphs: Map<u64, GlyphMesh>, s: Seq<char>) -> Result<
    LayoutState,
    TextMeshError,
>
    decreases s.len(),
{
    if s.len() == 0 {
        Ok(initial_state(p))
    } else {
        match layout_chars(p, glyphs, s.drop_last()) {
            Ok(st) => layout_step(p, glyphs, st, s.last()),
            Err(e) => Err(e),
        }
    }
}

proof fn lemma_mul_bound(a: int, b: int, la: int, lb: int)
    requires
        -la <= a <= la,
        0 <= b <= lb,
    ensures
        -(la * lb) <= a * b <= la * lb,
{
    assert(-(la * lb) <= a * b <= la * lb) by (nonlinear_arith)
        requires
            -la <= a <= la,
            0 <= b <= lb,
    ;
}

proof fn lemma_bbox(vs: Seq<GlyphPoint>)
    requires
        forall|i: int| 0 <= i < vs.len() ==> point_in_range(#[trigger] vs[i]),
    ensures
        -GLYPH_COORD_LIMIT <= bbox(vs).0 <= bbox(vs).1 <= GLYPH_COORD_LIMIT,
        -GLYPH_COORD_LIMIT <= bbox(vs).2 <= bbox(vs).3 <= GLYPH_COORD_LIMIT,
    decreases vs.len(),
{
    if vs.len() > 1 {
        let d = vs.drop_last();
        assert forall|i: int| 0 <= i < d.len() implies point_in_range(#[trigger] d[i]) by {
            assert(d[i] == vs[i]);
        }
        lemma_bbox(d);
        assert(point_in_range(vs[vs.len() - 1]));
    } else if vs.len() == 1 {
        assert(point_in_range(vs[0]));
    }
}

/// One step keeps the layout state well formed.
pub proof fn lemma_step_ok(p: LayoutParams, glyphs: Map<u64, GlyphMesh>, st: LayoutState, c: char)
    requires
        p.wf(),
        entries_wf(glyphs),
        state_ok(st),
        layout_step(p, glyphs, st, c) is Ok,
    ensures
        state_ok(layout_step(p, glyphs, st, c)->Ok_0),
{
    if c != ' ' && c != '\t' {
        let g = glyphs[key_code(c, p.depth.0)];
        assert(g.wf());
        lemma_bbox(g.vertices@);
        let b = bbox(g.vertices@);
        lemma_mul_bound(b.3 - b.2, p.scale as int, 2 * GLYPH_COORD_LIMIT, 549755813888);
        let offset = st.vertices.len();
        let n = layout_step(p, glyphs, st, c)->Ok_0;
        let sh = shifted(g.indices@, offset as int);
        assert forall|i: int| 0 <= i < n.indices.len() implies (#[trigger] n.indices[i])
            < n.vertices.len() by {
            if i >= st.indices.len() {
                let j = i - st.indices.len();
                assert(g.indices@[j] < g.vertices@.len());
                assert(n.indices[i] == sh[j]);
            }
        }
    }
}

/// Every state that layout reaches is well formed.
pub proof fn lemma_layout_ok(p: LayoutParams, glyphs: Map<u64, GlyphMesh>, s: Seq<char>)
    requires
        p.wf(),
        entries_wf(glyphs),
        layout_chars(p, glyphs, s) is Ok,
    ensures
        state_ok(layout_chars(p, glyphs, s)->Ok_0),
    decreases s.len(),
{
    if s.len() > 0 {
        lemma_layout_ok(p, glyphs, s.drop_last());
        lemma_step_ok(p, glyphs, layout_chars(p, glyphs, s.drop_last())->Ok_0, s.last());
    }
}

/// Adding cache entries does not change a layout that succeeded.
pub proof fn lemma_layout_extend(
    p: LayoutParams,
    m1: Map<u64, GlyphMesh>,
    m2: Map<u64, GlyphMesh>,
    s: Seq<char>,
)
    requires
        keeps_entries(m1, m2),
        layout_chars(p, m1, s) is Ok,
    ensures
        layout_chars(p, m2, s) == layout_chars(p, m1, s),
    decreases s.len(),
{
    if s.len() > 0 {
        lemma_layout_extend(p, m1, m2, s.drop_last());
        let c = s.last();
        if m1.contains_key(key_code(c, p.depth.0)) {
            assert(m2[key_code(c, p.depth.0)] == m1[key_code(c, p.depth.0)]);
        }
    }
}

/// Once a prefix fails, the whole sequence fails the same way.
pub proof fn lemma_layout_err_prefix(p: LayoutParams, m: Map<u64, GlyphMesh>, s: Seq<char>, i: int)
    requires
        0 <= i <= s.len(),
        layout_chars(p, m, s.take(i)) is Err,
    ensures
        layout_chars(p, m, s) == layout_chars(p, m, s.take(i)),
    decreases s.len() - i,
{
    if i == s.len() {
        assert(s.take(i) =~= s);
    } else {
        assert(s.take(i + 1).drop_last() =~= s.take(i));
        lemma_layout_err_prefix(p, m, s, i + 1);
    }
}

/// `layout_chars` on one more character is one more step.
pub proof fn lemma_layout_take(p: LayoutParams, m: Map<u64, GlyphMesh>, s: Seq<char>, i: int)
    requires
        0 <= i < s.len(),
    ensures
        layout_chars(p, m, s.take(i + 1)) == (match layout_chars(p, m, s.take(i)) {
            Ok(st) => layout_step(p, m, st, s[i]),
            Err(e) => Err(e),
        }),
{
    assert(s.take(i + 1).drop_last() =~= s.take(i));
}

/// The buffers and pen of a layout pass in progress.
pub struct LayoutBuffers {
    pub pen: Pen,
    pub vertices: Vec<Point>,
    pub normals: Vec<GlyphPoint>,
    pub indices: Vec<u32>,
}

impl View for LayoutBuffers {
    type V = LayoutState;

    open spec fn view(&self) -> LayoutState {
        LayoutState {
            pen: self.pen,
            vertices: self.vertices@,
            normals: self.normals@,
            indices: self.indices@,
        }
    }
}

impl LayoutBuffers {
    pub fn new(p: &LayoutParams) -> (b: LayoutBuffers)
        ensures
            b@ == initial_state(*p),
    {
        let b = LayoutBuffers {
            pen: Pen { x: p.line_start, y: p.top, row_height: 0, column: 0 },
            vertices: Vec::new(),
            normals: Vec::new(),
            indices: Vec::new(),
        };
        assert(b@.vertices =~= Seq::<Point>::empty());
        b
    }
}

/// The bounding box of glyph points, as `bbox` defines it.
pub fn glyph_bbox(vs: &Vec<GlyphPoint>) -> (r: (i32, i32, i32, i32))
    ensures
        (r.0 as int, r.1 as int, r.2 as int, r.3 as int) == bbox(vs@),
{
    if vs.len() == 0 {
        return (0, 0, 0, 0);
    }
    let first = vs[0];
    let mut b = (first.0, first.0, first.1, first.1);
    assert(vs@.take(1).drop_last() =~= Seq::<GlyphPoint>::empty());
    let mut i: usize = 1;
    while i < vs.len()
        invariant
            1 <= i <= vs@.len(),
            (b.0 as int, b.1 as int, b.2 as int, b.3 as int) == bbox(vs@.take(i as int)),
        decreases vs@.len() - i,
    {
        let v = vs[i];
        b = (
            if v.0 < b.0 {
                v.0
            } else {
                b.0
            },
            if v.0 > b.1 {
                v.0
            } else {
                b.1
            },
            if v.1 < b.2 {
                v.1
            } else {
                b.2
            },
            if v.1 > b.3 {
                v.1
            } else {
                b.3
            },
        );
        assert(vs@.take(i + 1).drop_last() =~= vs@.take(i as int));
        i += 1;
    }
    assert(vs@.take(i as int) =~= vs@);
    b
}

/// Places glyph `g` at the pen of `buf`, as `place_glyph` says.
pub fn place_glyph_exec(p: &LayoutParams, buf: &mut LayoutBuffers, g: &GlyphMesh) -> (r: Result<
    (),
    TextMeshError,
>)
    requires
        p.wf(),
        g.wf(),
        state_ok(old(buf)@),
    ensures
        match place_glyph(*p, old(buf)@, *g) {
            Ok(st) => r is Ok && final(buf)@ == st,
            Err(e) => r == Err::<(), TextMeshError>(e),
        },
{
    let b = glyph_bbox(&g.vertices);
    proof {
        lemma_bbox(g.vertices@);
        lemma_mul_bound(b.3 - b.2, p.scale as int, 2 * GLYPH_COORD_LIMIT, 549755813888);
        lemma_mul_bound(b.1 - b.0, p.scale as int, 2 * GLYPH_COORD_LIMIT, 549755813888);
        lemma_mul_bound(b.0 as int, p.scale as int, GLYPH_COORD_LIMIT as int, 549755813888);
    }
    let offset = buf.vertices.len();
    let n = g.vertices.len();
    if n > (u32::MAX as usize) - offset {
        return Err(TextMeshError::MeshTooLarge);
    }
    let h = (b.3 as i64 - b.2 as i64) * p.scale;
    let row = if buf.pen.row_height >= h {
        buf.pen.row_height
    } else {
        h
    };
    let x = buf.pen.x + (b.1 as i64 - b.0 as i64) * p.scale + p.spacing_x;
    let wrap = p.wrapping && x + p.unit + p.spacing_x > p.line_end;
    let nx = if wrap {
        p.line_start
    } else {
        x
    };
    let ny = if wrap {
        buf.pen.y - (row + p.spacing_y)
    } else {
        buf.pen.y
    };
    if nx < -PEN_LIMIT || nx > PEN_LIMIT || ny < -PEN_LIMIT || ny > PEN_LIMIT {
        return Err(TextMeshError::MeshTooLarge);
    }
    let pen = buf.pen;
    let xmin = b.0 as i64;
    let xshift = pen.x - xmin * p.scale;
    let ghost old_buf = buf@;
    let ghost pl = placed(*p, pen, b.0 as int, g.vertices@);
    let mut j: usize = 0;
    while j < n
        invariant
            p.wf(),
            g.wf(),
            n == g.vertices@.len(),
            j <= n,
            in_pen_range(pen.x as int),
            in_pen_range(pen.y as int),
            xshift == pen.x - b.0 * p.scale,
            -(GLYPH_COORD_LIMIT * 549755813888) <= b.0 * p.scale <= GLYPH_COORD_LIMIT
                * 549755813888,
            pl == placed(*p, pen, b.0 as int, g.vertices@),
            buf.vertices@ == old_buf.vertices + pl.take(j as int),
            buf.normals@ == old_buf.normals,
            buf.indices@ == old_buf.indices,
        decreases n - j,
    {
        let v = g.vertices[j];
        proof {
            assert(point_in_range(g.vertices@[j as int]));
            lemma_mul_bound(v.0 as int, p.scale as int, GLYPH_COORD_LIMIT as int, 549755813888);
            lemma_mul_bound(v.1 as int, p.scale as int, GLYPH_COORD_LIMIT as int, 549755813888);
            lemma_mul_bound(v.2 as int, p.scale as int, GLYPH_COORD_LIMIT as int, 549755813888);
        }
        let q = ((v.0 as i64) * p.scale + xshift, (v.1 as i64) * p.scale + pen.y, (v.2 as i64)
            * p.scale);
        buf.vertices.push(q);
        proof {
            assert(pl[j as int] == place_point(*p, pen, b.0 as int, v));
            assert(pl.take(j + 1) =~= pl.take(j as int).push(q));
        }
        j += 1;
    }
    assert(pl.take(n as int) =~= pl);
    assert(g.normals@.take(0) =~= Seq::<GlyphPoint>::empty());
    let mut k: usize = 0;
    while k < g.normals.len()
        invariant
            g.wf(),
            k <= g.normals@.len(),
            buf.vertices@ == old_buf.vertices + pl,
            buf.normals@ == old_buf.normals + g.normals@.take(k as int),
            buf.indices@ == old_buf.indices,
        decreases g.normals@.len() - k,
    {
        buf.normals.push(g.normals[k]);
        assert(g.normals@.take(k + 1) =~= g.normals@.take(k as int).push(g.normals@[k as int]));
        k += 1;
    }
    assert(g.normals@.take(k as int) =~= g.normals@);
    let ghost sh = shifted(g.indices@, offset as int);
    let off = offset as u32;
    assert(sh.take(0) =~= Seq::<u32>::empty());
    let mut t: usize = 0;
    while t < g.indices.len()
        invariant
            g.wf(),
            n == g.vertices@.len(),
            offset + n <= u32::MAX,
            off == offset,
            t <= g.indices@.len(),
            sh == shifted(g.indices@, offset as int),
            buf.vertices@ == old_buf.vertices + pl,
            buf.normals@ == old_buf.normals + g.normals@,
            buf.indices@ == old_buf.indices + sh.take(t as int),
        decreases g.indices@.len() - t,
    {
        let i = g.indices[t];
        assert(g.indices@[t as int] < n);
        let shifted_index = i + off;
        buf.indices.push(shifted_index);
        assert(sh.take(t + 1) =~= sh.take(t as int).push(shifted_index));
        t += 1;
    }
    assert(sh.take(t as int) =~= sh);
    buf.pen = Pen {
        x: nx,
        y: ny,
        row_height: if wrap {
            0
        } else {
            row
        },
        column: if wrap {
            0
        } else {
            (pen.column + 1) % TAB_WIDTH
        },
    };
    Ok(())
}

/// Moves the pen of `buf`, as `move_pen` says.
fn move_pen_exec(buf: &mut LayoutBuffers, advance: i64, column: u8) -> (r: Result<(), TextMeshError>)
    requires
        state_ok(old(buf)@),
        0 <= advance <= 4 * 562949953421312,
    ensures
        match move_pen(old(buf)@, advance as int, column as int) {
            Ok(st) => r is Ok && final(buf)@ == st,
            Err(e) => r == Err::<(), TextMeshError>(e),
        },
{
    let nx = buf.pen.x + advance;
    if nx > PEN_LIMIT {
        return Err(TextMeshError::MeshTooLarge);
    }
    buf.pen.x = nx;
    buf.pen.column = column;
    Ok(())
}

/// Lays out one character into `buf`, as `layout_step` says.
pub fn layout_char(p: &LayoutParams, cache: &MeshCache, buf: &mut LayoutBuffers, c: char) -> (r:
    Result<(), TextMeshError>)
    requires
        p.wf(),
        cache.wf(),
        state_ok(old(buf)@),
    ensures
        match layout_step(*p, cache@, old(buf)@, c) {
            Ok(st) => r is Ok && final(buf)@ == st,
            Err(e) => r == Err::<(), TextMeshError>(e),
        },
{
    if c == ' ' {
        move_pen_exec(buf, p.space_advance, (buf.pen.column + 1) % TAB_WIDTH)
    } else if c == '\t' {
        let n = TAB_WIDTH - buf.pen.column;
        proof {
            lemma_mul_bound(n as int, p.space_advance as int, 4, 562949953421312);
        }
        move_pen_exec(buf, p.space_advance * (n as i64), 0)
    } else {
        let key = CacheKey::new_3d(c, p.depth);
        match cache.get(&key) {
            None => Err(TextMeshError::TessellationFailed),
            Some(g) => {
                assert(cache@.contains_key(key.spec_code()));
                place_glyph_exec(p, buf, g)
            },
        }
    }
}

/// Whether laying out `c` in state `st` places a glyph after which the row
/// has no room left, so that the next character starts a new row.
pub open spec fn crosses(p: LayoutParams, glyphs: Map<u64, GlyphMesh>, st: LayoutState, c: char) -> bool {
    &&& !is_blank(c)
    &&& glyphs.contains_key(key_code(c, p.depth.0))
    &&& wraps_at(p, st.pen.x + glyph_advance(p, glyphs[key_code(c, p.depth.0)]))
}

/// A prefix of a successful layout succeeds.
pub proof fn lemma_layout_prefix_ok(p: LayoutParams, m: Map<u64, GlyphMesh>, s: Seq<char>, i: int)
    requires
        0 <= i <= s.len(),
        layout_chars(p, m, s) is Ok,
    ensures
        layout_chars(p, m, s.take(i)) is Ok,
{
    if layout_chars(p, m, s.take(i)) is Err {
        lemma_layout_err_prefix(p, m, s, i);
    }
}

/// A text of spaces and tabs produces no vertices, normals or indices: the
/// pen only moves right along the first row. It never needs a glyph mesh,
/// and only a text of more than 256 such characters can run out of range.
pub proof fn lemma_blank_text(p: LayoutParams, glyphs: Map<u64, GlyphMesh>, s: Seq<char>)
    requires
        p.wf(),
        forall|i: int| 0 <= i < s.len() ==> is_blank(#[trigger] s[i]),
    ensures
        match layout_chars(p, glyphs, s) {
            Ok(st) => {
                &&& st.vertices.len() == 0
                &&& st.normals.len() == 0
                &&& st.indices.len() == 0
                &&& st.pen.y == p.top
                &&& p.line_start <= st.pen.x <= p.line_start + 4 * s.len() * p.space_advance
                &&& st.pen.column < TAB_WIDTH
            },
            Err(e) => e == TextMeshError::MeshTooLarge && s.len() > 256,
        },
    decreases s.len(),
{
    if s.len() > 0 {
        let d = s.drop_last();
        assert forall|i: int| 0 <= i < d.len() implies is_blank(#[trigger] d[i]) by {
            assert(d[i] == s[i]);
        }
        lemma_blank_text(p, glyphs, d);
        assert(is_blank(s[s.len() - 1]));
        assert(s.len() <= 256 ==> 4 * s.len() * p.space_advance <= 1024 * 562949953421312)
            by (nonlinear_arith)
            requires
                0 <= p.space_advance <= 562949953421312,
        ;
        assert(0 <= 4 * d.len() * p.space_advance) by (nonlinear_arith)
            requires
                0 <= p.space_advance,
        ;
        assert(4 * s.len() * p.space_advance == 4 * d.len() * p.space_advance + 4
            * p.space_advance) by (nonlinear_arith)
            requires
                s.len() == d.len() + 1,
        ;
        match layout_chars(p, glyphs, d) {
            Ok(st) => {
                let c = s.last();
                lemma_mul_bound(
                    (TAB_WIDTH - st.pen.column) as int,
                    p.space_advance as int,
                    4,
                    562949953421312,
                );
                assert(0 <= (TAB_WIDTH - st.pen.column) * p.space_advance <= 4 * p.space_advance)
                    by (nonlinear_arith)
                    requires
                        0 <= TAB_WIDTH - st.pen.column <= 4,
                        0 <= p.space_advance,
                ;
            },
            Err(e) => {},
        }
    }
}

/// Wrapping: while no glyph fills its row, every character is placed on the
/// first row; when the glyph at `k` leaves no room for another character,
/// the next character starts at the line start, at least the row's height
/// plus the vertical spacing lower.
pub proof fn lemma_wrap_threshold(p: LayoutParams, glyphs: Map<u64, GlyphMesh>, s: Seq<char>, k: int)
    requires
        p.wf(),
        entries_wf(glyphs),
        0 <= k < s.len(),
        layout_chars(p, glyphs, s.take(k + 1)) is Ok,
        forall|j: int|
            0 <= j < k ==> !crosses(p, glyphs, #[trigger] layout_chars(p, glyphs, s.take(j))->Ok_0, s[j]),
        crosses(p, glyphs, layout_chars(p, glyphs, s.take(k))->Ok_0, s[k]),
    ensures
        forall|j: int| 0 <= j <= k ==> (#[trigger] layout_chars(p, glyphs, s.take(j)))->Ok_0.pen.y == p.top,
        layout_chars(p, glyphs, s.take(k + 1))->Ok_0.pen.x == p.line_start,
        layout_chars(p, glyphs, s.take(k + 1))->Ok_0.pen.y <= p.top - (layout_chars(
            p,
            glyphs,
            s.take(k),
        )->Ok_0.pen.row_height + p.spacing_y),
{
    let t = s.take(k + 1);
    assert forall|j: int| 0 <= j <= k implies (#[trigger] layout_chars(p, glyphs, s.take(j)))->Ok_0.pen.y
        == p.top by {
        lemma_first_row(p, glyphs, s, k, j);
    }
    lemma_layout_prefix_ok(p, glyphs, t, k);
    assert(t.take(k) =~= s.take(k));
    lemma_layout_take(p, glyphs, s, k);
}

proof fn lemma_first_row(p: LayoutParams, glyphs: Map<u64, GlyphMesh>, s: Seq<char>, k: int, j: int)
    requires
        p.wf(),
        entries_wf(glyphs),
        0 <= j <= k < s.len(),
        layout_chars(p, glyphs, s.take(k + 1)) is Ok,
        forall|i: int|
            0 <= i < k ==> !crosses(p, glyphs, #[trigger] layout_chars(p, glyphs, s.take(i))->Ok_0, s[i]),
    ensures
        layout_chars(p, glyphs, s.take(j)) is Ok,
        layout_chars(p, glyphs, s.take(j))->Ok_0.pen.y == p.top,
    decreases j,
{
    let t = s.take(k + 1);
    lemma_layout_prefix_ok(p, glyphs, t, j);
    assert(t.take(j) =~= s.take(j));
    if j > 0 {
        lemma_first_row(p, glyphs, s, k, j - 1);
        lemma_layout_take(p, glyphs, s, j - 1);
        let prev = layout_chars(p, glyphs, s.take(j - 1))->Ok_0;
        assert(!crosses(p, glyphs, prev, s[j - 1]));
    }
}

/// The vertices of a successful layout extend those of each of its prefixes.
pub proof fn lemma_vertices_prefix(p: LayoutParams, m: Map<u64, GlyphMesh>, s: Seq<char>, i: int)
    requires
        0 <= i <= s.len(),
        layout_chars(p, m, s) is Ok,
    ensures
        layout_chars(p, m, s.take(i)) is Ok,
        layout_chars(p, m, s.take(i))->Ok_0.vertices.len() <= layout_chars(p, m, s)->Ok_0.vertices.len(),
        layout_chars(p, m, s)->Ok_0.vertices.take(
            layout_chars(p, m, s.take(i))->Ok_0.vertices.len() as int,
        ) == layout_chars(p, m, s.take(i))->Ok_0.vertices,
    decreases s.len() - i,
{
    lemma_layout_prefix_ok(p, m, s, i);
    if i == s.len() {
        assert(s.take(i) =~= s);
        let v = layout_chars(p, m, s)->Ok_0.vertices;
        assert(v.take(v.len() as int) =~= v);
    } else {
        lemma_vertices_prefix(p, m, s, i + 1);
        lemma_layout_take(p, m, s, i);
        let a = layout_chars(p, m, s.take(i))->Ok_0.vertices;
        let b = layout_chars(p, m, s.take(i + 1))->Ok_0.vertices;
        let c = layout_chars(p, m, s)->Ok_0.vertices;
        assert(b.take(a.len() as int) =~= a);
        assert(c.take(a.len() as int) =~= b.take(a.len() as int));
    }
}

/// Where the glyph of character `j` lands in the final vertex buffer: right
/// after the vertices of the characters before it, each vertex placed at
/// the pen as it was before `j`.
pub proof fn lemma_glyph_vertices(p: LayoutParams, m: Map<u64, GlyphMesh>, s: Seq<char>, j: int, t: int)
    requires
        0 <= j < s.len(),
        !is_blank(s[j]),
        layout_chars(p, m, s) is Ok,
        0 <= t < m[key_code(s[j], p.depth.0)].vertices@.len(),
    ensures
        layout_chars(p, m, s.take(j)) is Ok,
        ({
            let before = layout_chars(p, m, s.take(j))->Ok_0;
            let g = m[key_code(s[j], p.depth.0)];
            layout_chars(p, m, s)->Ok_0.vertices[before.vertices.len() + t] == place_point(
                p,
                before.pen,
                bbox(g.vertices@).0,
                g.vertices@[t],
            )
        }),
{
    lemma_vertices_prefix(p, m, s, j + 1);
    lemma_layout_prefix_ok(p, m, s, j);
    lemma_layout_take(p, m, s, j);
    let before = layout_chars(p, m, s.take(j))->Ok_0;
    let after = layout_chars(p, m, s.take(j + 1))->Ok_0;
    let g = m[key_code(s[j], p.depth.0)];
    let fin = layout_chars(p, m, s)->Ok_0.vertices;
    assert(after.vertices[before.vertices.len() + t] == placed(p, before.pen, bbox(g.vertices@).0, g.vertices@)[t]);
    assert(fin.take(after.vertices.len() as int)[before.vertices.len() + t] == fin[before.vertices.len() + t]);
}

/// Wrapping, on the emitted vertices: with no row filled before glyph `k`
/// and glyph `k` filling its row, every vertex of characters `0..=k` lies
/// on the first row (`y` is the glyph's own `y` scaled, plus the top), and
/// the glyph of character `k + 1` starts at the line start, lower by at
/// least the row's height plus the vertical spacing.
pub proof fn lemma_wrap_vertices(
    p: LayoutParams,
    glyphs: Map<u64, GlyphMesh>,
    s: Seq<char>,
    k: int,
    j: int,
    t: int,
)
    requires
        p.wf(),
        entries_wf(glyphs),
        layout_chars(p, glyphs, s) is Ok,
        0 <= k < s.len(),
        0 <= j <= k + 1,
        j < s.len(),
        !is_blank(s[j]),
        0 <= t < glyphs[key_code(s[j], p.depth.0)].vertices@.len(),
        forall|i: int|
            0 <= i < k ==> !crosses(p, glyphs, #[trigger] layout_chars(p, glyphs, s.take(i))->Ok_0, s[i]),
        crosses(p, glyphs, layout_chars(p, glyphs, s.take(k))->Ok_0, s[k]),
    ensures
        ({
            let g = glyphs[key_code(s[j], p.depth.0)];
            let gv = g.vertices@[t];
            let v = layout_chars(p, glyphs, s)->Ok_0.vertices[layout_chars(
                p,
                glyphs,
                s.take(j),
            )->Ok_0.vertices.len() + t];
            &&& j <= k ==> v.1 == gv.1 * p.scale + p.top
            &&& j == k + 1 ==> v.0 == gv.0 * p.scale + p.line_start - bbox(g.vertices@).0 * p.scale
                && v.1 <= gv.1 * p.scale + p.top - (layout_chars(
                p,
                glyphs,
                s.take(k),
            )->Ok_0.pen.row_height + p.spacing_y)
        }),
{
    lemma_layout_prefix_ok(p, glyphs, s, k + 1);
    lemma_wrap_threshold(p, glyphs, s, k);
    lemma_vertex_at(p, glyphs, s, j, t);
    if j == k + 1 {
        assert(layout_chars(p, glyphs, s.take(j)) == layout_chars(p, glyphs, s.take(k + 1)));
    }
}

/// A vertex of the glyph of character `j`, in integer arithmetic: its
/// scaled glyph coordinates moved to the pen before `j`.
proof fn lemma_vertex_at(p: LayoutParams, glyphs: Map<u64, GlyphMesh>, s: Seq<char>, j: int, t: int)
    requires
        p.wf(),
        entries_wf(glyphs),
        layout_chars(p, glyphs, s) is Ok,
        0 <= j < s.len(),
        !is_blank(s[j]),
        0 <= t < glyphs[key_code(s[j], p.depth.0)].vertices@.len(),
    ensures
        layout_chars(p, glyphs, s.take(j)) is Ok,
        ({
            let before = layout_chars(p, glyphs, s.take(j))->Ok_0;
            let g = glyphs[key_code(s[j], p.depth.0)];
            let gv = g.vertices@[t];
            let v = layout_chars(p, glyphs, s)->Ok_0.vertices[before.vertices.len() + t];
            &&& v.0 == gv.0 * p.scale + before.pen.x - bbox(g.vertices@).0 * p.scale
            &&& v.1 == gv.1 * p.scale + before.pen.y
        }),
{
    lemma_glyph_vertices(p, glyphs, s, j, t);
    lemma_layout_ok(p, glyphs, s.take(j));
    lemma_layout_prefix_ok(p, glyphs, s, j + 1);
    lemma_layout_take(p, glyphs, s, j);
    assert(glyphs.contains_key(key_code(s[j], p.depth.0)));
    let before = layout_chars(p, glyphs, s.take(j))->Ok_0;
    let g = glyphs[key_code(s[j], p.depth.0)];
    assert(g.wf());
    assert(point_in_range(g.vertices@[t]));
    lemma_bbox(g.vertices@);
    let gv = g.vertices@[t];
    let b0 = bbox(g.vertices@).0;
    lemma_mul_bound(gv.0 as int, p.scale as int, GLYPH_COORD_LIMIT as int, 549755813888);
    lemma_mul_bound(gv.1 as int, p.scale as int, GLYPH_COORD_LIMIT as int, 549755813888);
    lemma_mul_bound(b0, p.scale as int, GLYPH_COORD_LIMIT as int, 549755813888);
}

/// `s1` and `s2` differ only where both hold characters that need a mesh
/// and the cache holds the same mesh (or none) for both.
pub open spec fn same_meshes(p: LayoutParams, glyphs: Map<u64, GlyphMesh>, s1: Seq<char>, s2: Seq<char>) -> bool {
    &&& s1.len() == s2.len()
    &&& forall|i: int|
        0 <= i < s1.len() ==> #[trigger] s1[i] == s2[i] || {
            let k1 = key_code(s1[i], p.depth.0);
            let k2 = key_code(s2[i], p.depth.0);
            &&& !is_blank(s1[i])
            &&& !is_blank(s2[i])
            &&& glyphs.contains_key(k1) == glyphs.contains_key(k2)
            &&& glyphs[k1] == glyphs[k2]
        }
}

/// Layout sees a character only through its cached mesh: a character whose
/// entry is the fallback character's mesh lays out exactly as the fallback
/// character does.
pub proof fn lemma_same_meshes_same_layout(
    p: LayoutParams,
    glyphs: Map<u64, GlyphMesh>,
    s1: Seq<char>,
    s2: Seq<char>,
)
    requires
        same_meshes(p, glyphs, s1, s2),
    ensures
        layout_chars(p, glyphs, s1) == layout_chars(p, glyphs, s2),
    decreases s1.len(),
{
    if s1.len() > 0 {
        let d1 = s1.drop_last();
        let d2 = s2.drop_last();
        assert forall|i: int| 0 <= i < d1.len() implies #[trigger] d1[i] == d2[i] || {
            let k1 = key_code(d1[i], p.depth.0);
            let k2 = key_code(d2[i], p.depth.0);
            &&& !is_blank(d1[i])
            &&& !is_blank(d2[i])
            &&& glyphs.contains_key(k1) == glyphs.contains_key(k2)
            &&& glyphs[k1] == glyphs[k2]
        } by {
            assert(d1[i] == s1[i] && d2[i] == s2[i]);
        }
        lemma_same_meshes_same_layout(p, glyphs, d1, d2);
        assert(s1[s1.len() - 1] == s2[s1.len() - 1] || !is_blank(s1.last()));
    }
}

} // verus!
