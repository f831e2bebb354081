use vstd::prelude::*;

use crate::layout::{
    is_blank, lemma_blank_text, layout_char, layout_chars, lemma_layout_err_prefix, lemma_layout_extend, lemma_layout_ok,
    lemma_layout_take, lemma_step_ok, make_params, state_ok, LayoutBuffers, LayoutParams,
    LayoutState, Point, TextMeshError,
};
use crate::mesh_cache::{
    entries_wf, fallback_used, keeps_entries, key_code, tessellated, tessellated_directly,
    tessellation_failed, CacheKey, GlyphMesh, GlyphPoint, GlyphSource, MeshCache,
};
use crate::text_mesh::{FontStyle, Quality, SizeUnit, TextMesh, TextMeshSize, TextMeshStyle};

verus! {

/// What `str::to_uppercase` gives for a string.
pub uninterp spec fn upper_of(s: Seq<char>) -> Seq<char>;

/// What `str::to_lowercase` gives for a string.
pub uninterp spec fn lower_of(s: Seq<char>) -> Seq<char>;

/// Relies on `str::to_uppercase`: Unicode upper case of the whole string,
/// a function of its characters alone.
#[verifier::external_body]
fn to_upper(s: &str) -> (r: String)
    ensures
        r@ == upper_of(s@),
{
    s.to_uppercase()
}

/// Relies on `str::to_lowercase`: Unicode lower case of the whole string,
/// a function of its characters alone.
#[verifier::external_body]
fn to_lower(s: &str) -> (r: String)
    ensures
        r@ == lower_of(s@),
{
    s.to_lowercase()
}

/// The text as laid out: upper case when `UPPERCASE` is set (whatever else
/// is), else lower case when `LOWERCASE` is set, else unchanged.
pub open spec fn folded(text: Seq<char>, style: FontStyle) -> Seq<char> {
    if style.has(FontStyle::UPPERCASE) {
        upper_of(text)
    } else if style.has(FontStyle::LOWERCASE) {
        lower_of(text)
    } else {
        text
    }
}

pub fn fold_case(text: &str, style: FontStyle) -> (r: String)
    ensures
        r@ == folded(text@, style),
{
    if style.contains(FontStyle::UPPERCASE) {
        to_upper(text)
    } else if style.contains(FontStyle::LOWERCASE) {
        to_lower(text)
    } else {
        text.to_owned()
    }
}

/// The characters of a string, in order.
pub fn chars_of(s: &str) -> (r: Vec<char>)
    ensures
        r@ == s@,
{
    let mut out: Vec<char> = Vec::new();
    proof {
        vstd::string::axiom_spec_iter(s);
    }
    for c in it: s.chars()
        invariant
            it.seq() == s@,
            out@ == it.seq().take(it.index() as int),
    {
        out.push(c);
        assert(out@ =~= it.seq().take(it.index() as int + 1));
    }
    assert(out@ =~= s@);
    out
}

/// The layout parameters of a style and a box, or the first unresolved size.
pub open spec fn params_of(style: TextMeshStyle, size: TextMeshSize) -> Result<
    LayoutParams,
    TextMeshError,
> {
    match style.font_size {
        SizeUnit::Auto => Err(TextMeshError::FontSizeUnresolved),
        SizeUnit::NonStandard(f) => match size.depth {
            Some(SizeUnit::NonStandard(d)) => match (size.width, size.height) {
                (SizeUnit::NonStandard(w), SizeUnit::NonStandard(h)) => Ok(
                    crate::layout::params_from(f, w, h, d, size.wrapping, style.mesh_quality),
                ),
                _ => Err(TextMeshError::SizeUnresolved),
            },
            _ => Err(TextMeshError::DepthUnresolved),
        },
    }
}

pub fn resolve_params(style: &TextMeshStyle, size: &TextMeshSize) -> (r: Result<
    LayoutParams,
    TextMeshError,
>)
    ensures
        r == params_of(*style, *size),
        r is Ok ==> r->Ok_0.wf(),
{
    let f = match style.font_size.as_scalar() {
        Some(f) => f,
        None => return Err(TextMeshError::FontSizeUnresolved),
    };
    let d = match size.depth {
        Some(SizeUnit::NonStandard(d)) => d,
        _ => return Err(TextMeshError::DepthUnresolved),
    };
    match (size.width, size.height) {
        (SizeUnit::NonStandard(w), SizeUnit::NonStandard(h)) => Ok(
            make_params(f, w, h, d, size.wrapping, style.mesh_quality),
        ),
        _ => Err(TextMeshError::SizeUnresolved),
    }
}

/// The output mesh as mathematical sequences.
pub struct MeshModel {
    pub vertices: Seq<Point>,
    pub normals: Seq<GlyphPoint>,
    pub indices: Seq<u32>,
    pub uvs: Seq<(i64, i64)>,
}

impl MeshModel {
    /// Aligned buffers and a triangle list whose indices name vertices.
    pub open spec fn wf(&self) -> bool {
        &&& self.normals.len() == self.vertices.len()
        &&& self.uvs.len() == self.vertices.len()
        &&& self.indices.len() % 3 == 0
        &&& forall|i: int|
            0 <= i < self.indices.len() ==> (#[trigger] self.indices[i]) < self.vertices.len()
    }
}

/// The texture coordinate every vertex gets: texture mapping is not done.
pub open spec fn placeholder_uv() -> (i64, i64) {
    (0, 1)
}

/// The finished mesh of a layout state: its buffers and one placeholder
/// texture coordinate per vertex.
pub open spec fn finish(st: LayoutState) -> MeshModel {
    MeshModel {
        vertices: st.vertices,
        normals: st.normals,
        indices: st.indices,
        uvs: Seq::new(st.vertices.len(), |i: int| placeholder_uv()),
    }
}

/// One combined mesh: positions, normals, a triangle list and texture
/// coordinates. Positions are in units of 1/14_400_000 of a scene unit;
/// normals are copied from the glyph meshes.
#[derive(Debug)]
pub struct MeshData {
    pub vertices: Vec<Point>,
    pub normals: Vec<GlyphPoint>,
    pub indices: Vec<u32>,
    pub uvs: Vec<(i64, i64)>,
}

impl View for MeshData {
    type V = MeshModel;

    open spec fn view(&self) -> MeshModel {
        MeshModel {
            vertices: self.vertices@,
            normals: self.normals@,
            indices: self.indices@,
            uvs: self.uvs@,
        }
    }
}

pub open spec fn result_view(r: Result<MeshData, TextMeshError>) -> Result<MeshModel, TextMeshError> {
    match r {
        Ok(m) => Ok(m@),
        Err(e) => Err(e),
    }
}

/// The mesh for `text` under `style` and `size`, with glyph meshes taken
/// from `glyphs`.
pub open spec fn text_mesh_result(
    text: Seq<char>,
    style: TextMeshStyle,
    size: TextMeshSize,
    glyphs: Map<u64, GlyphMesh>,
) -> Result<MeshModel, TextMeshError> {
    match params_of(style, size) {
        Err(e) => Err(e),
        Ok(p) => match layout_chars(p, glyphs, folded(text, style.font_style)) {
            Err(e) => Err(e),
            Ok(st) => Ok(finish(st)),
        },
    }
}

/// `glyphs` holds a mesh for every character of the folded text that needs one.
pub open spec fn covers(
    text: Seq<char>,
    style: TextMeshStyle,
    size: TextMeshSize,
    glyphs: Map<u64, GlyphMesh>,
) -> bool {
    match params_of(style, size) {
        Err(e) => true,
        Ok(p) => {
            let s = folded(text, style.font_style);
            forall|i: int|
                0 <= i < s.len() && !is_blank(s[i]) ==> glyphs.contains_key(
                    #[trigger] key_code(s[i], p.depth.0),
                )
        },
    }
}

/// A tessellation failure is owed to a character of the folded text for
/// which neither it nor the fallback character gave a usable mesh.
pub open spec fn failure_explained<F: Fn(char, u32, Quality) -> Option<GlyphMesh>>(
    tessellate: F,
    text: Seq<char>,
    style: TextMeshStyle,
    size: TextMeshSize,
) -> bool {
    match params_of(style, size) {
        Err(e) => true,
        Ok(p) => {
            let s = folded(text, style.font_style);
            exists|i: int|
                0 <= i < s.len() && !is_blank(s[i]) && #[trigger] tessellation_failed(
                    tessellate,
                    s[i],
                    p.depth.0,
                    p.quality,
                )
        },
    }
}

/// Every entry of `new` that `old` lacks is a tessellation of a character
/// of the folded text, at the text's depth and quality.
pub open spec fn new_entries_tessellated<F: Fn(char, u32, Quality) -> Option<GlyphMesh>>(
    tessellate: F,
    text: Seq<char>,
    style: TextMeshStyle,
    size: TextMeshSize,
    old: Map<u64, GlyphMesh>,
    new: Map<u64, GlyphMesh>,
) -> bool {
    match params_of(style, size) {
        Err(e) => true,
        Ok(p) => {
            let s = folded(text, style.font_style);
            forall|k: u64|
                #[trigger] new.contains_key(k) && !old.contains_key(k) ==> exists|i: int|
                    0 <= i < s.len() && key_code(s[i], p.depth.0) == k && tessellated(
                        tessellate,
                        s[i],
                        p.depth.0,
                        p.quality,
                        new[k],
                    )
        },
    }
}

/// `w` lists characters of the folded text whose new cache entry is the
/// fallback character's mesh, and every new entry is either the own
/// tessellation of a character of the text or one listed in `w`.
pub open spec fn fallbacks_reported<F: Fn(char, u32, Quality) -> Option<GlyphMesh>>(
    tessellate: F,
    text: Seq<char>,
    style: TextMeshStyle,
    size: TextMeshSize,
    old: Map<u64, GlyphMesh>,
    new: Map<u64, GlyphMesh>,
    w: Seq<char>,
) -> bool {
    match params_of(style, size) {
        Err(e) => w.len() == 0,
        Ok(p) => {
            let s = folded(text, style.font_style);
            let d = p.depth.0;
            &&& forall|j: int|
                0 <= j < w.len() ==> s.contains(#[trigger] w[j]) && new.contains_key(key_code(w[j], d))
                    && !old.contains_key(key_code(w[j], d)) && fallback_used(
                    tessellate,
                    w[j],
                    d,
                    p.quality,
                    new[key_code(w[j], d)],
                )
            &&& forall|k: u64|
                #[trigger] new.contains_key(k) && !old.contains_key(k) ==> exists|i: int|
                    0 <= i < s.len() && key_code(s[i], d) == k && (tessellated_directly(
                        tessellate,
                        s[i],
                        d,
                        p.quality,
                        new[k],
                    ) || w.contains(s[i]))
        },
    }
}

fn finish_exec(buf: LayoutBuffers) -> (m: MeshData)
    requires
        state_ok(buf@),
    ensures
        m@ == finish(buf@),
        m@.wf(),
{
    let n = buf.vertices.len();
    let mut uvs: Vec<(i64, i64)> = Vec::new();
    let mut i: usize = 0;
    while i < n
        invariant
            i <= n,
            uvs@ =~= Seq::new(i as nat, |k: int| placeholder_uv()),
        decreases n - i,
    {
        uvs.push((0, 1));
        i += 1;
    }
    MeshData { vertices: buf.vertices, normals: buf.normals, indices: buf.indices, uvs }
}

/// A layout that succeeded found a mesh for every character that needs one.
pub proof fn lemma_layout_covers(p: LayoutParams, glyphs: Map<u64, GlyphMesh>, s: Seq<char>)
    requires
        layout_chars(p, glyphs, s) is Ok,
    ensures
        forall|i: int|
            0 <= i < s.len() && !is_blank(s[i]) ==> glyphs.contains_key(
                #[trigger] key_code(s[i], p.depth.0),
            ),
    decreases s.len(),
{
    if s.len() > 0 {
        let d = s.drop_last();
        lemma_layout_covers(p, glyphs, d);
        assert forall|i: int|
            0 <= i < s.len() && !is_blank(s[i]) implies glyphs.contains_key(
                #[trigger] key_code(s[i], p.depth.0),
            ) by {
            if i < s.len() - 1 {
                assert(s[i] == d[i]);
            }
        }
    }
}

proof fn lemma_keeps_trans(a: Map<u64, GlyphMesh>, b: Map<u64, GlyphMesh>, c: Map<u64, GlyphMesh>)
    requires
        keeps_entries(a, b),
        keeps_entries(b, c),
    ensures
        keeps_entries(a, c),
{
    assert forall|k: u64| #[trigger] a.contains_key(k) implies c.contains_key(k) && c[k] == a[k] by {
        assert(b.contains_key(k) && b[k] == a[k]);
        assert(c.contains_key(k) && c[k] == b[k]);
    }
}

proof fn lemma_keeps_refl(a: Map<u64, GlyphMesh>)
    ensures
        keeps_entries(a, a),
{
    assert forall|k: u64| #[trigger] a.contains_key(k) implies a.contains_key(k) && a[k] == a[k] by {}
}

/// Unfolds `covers` at one position.
proof fn lemma_covers_at(
    text: Seq<char>,
    style: TextMeshStyle,
    size: TextMeshSize,
    glyphs: Map<u64, GlyphMesh>,
    p: LayoutParams,
    i: int,
)
    requires
        covers(text, style, size, glyphs),
        params_of(style, size) == Ok::<LayoutParams, TextMeshError>(p),
        0 <= i < folded(text, style.font_style).len(),
        !is_blank(folded(text, style.font_style)[i]),
    ensures
        glyphs.contains_key(key_code(folded(text, style.font_style)[i], p.depth.0)),
{
    let s = folded(text, style.font_style);
    assert(forall|j: int|
        0 <= j < s.len() && !is_blank(s[j]) ==> glyphs.contains_key(
            #[trigger] key_code(s[j], p.depth.0),
        ));
}

/// Lays out `text` with the glyph meshes already in `cache`; a character
/// with no mesh there fails the layout.
pub fn layout_text(text: &Vec<char>, p: &LayoutParams, cache: &MeshCache) -> (r: Result<
    MeshData,
    TextMeshError,
>)
    requires
        p.wf(),
        cache.wf(),
    ensures
        result_view(r) == (match layout_chars(*p, cache@, text@) {
            Ok(st) => Ok(finish(st)),
            Err(e) => Err(e),
        }),
        r is Ok ==> r->Ok_0@.wf(),
{
    let mut buf = LayoutBuffers::new(p);
    assert(text@.take(0) =~= Seq::<char>::empty());
    let mut i: usize = 0;
    while i < text.len()
        invariant
            p.wf(),
            cache.wf(),
            i <= text@.len(),
            layout_chars(*p, cache@, text@.take(i as int)) == Ok::<LayoutState, TextMeshError>(
                buf@,
            ),
            state_ok(buf@),
        decreases text@.len() - i,
    {
        let c = text[i];
        proof {
            lemma_layout_take(*p, cache@, text@, i as int);
        }
        let ghost before = buf@;
        match layout_char(p, cache, &mut buf, c) {
            Ok(()) => {},
            Err(e) => {
                proof {
                    lemma_layout_err_prefix(*p, cache@, text@, i + 1);
                }
                return Err(e);
            },
        }
        proof {
            lemma_step_ok(*p, cache@, before, c);
        }
        i += 1;
    }
    assert(text@.take(i as int) =~= text@);
    Ok(finish_exec(buf))
}

/// `generate_text_mesh`, also returning, in order, the characters whose
/// mesh had to be the fallback character's: the warnings to surface.
pub fn generate_text_mesh_reporting<F: Fn(char, u32, Quality) -> Option<GlyphMesh>>(
    text_mesh: &TextMesh,
    tessellate: &F,
    cache: &mut MeshCache,
) -> (out: (Result<MeshData, TextMeshError>, Vec<char>))
    requires
        old(cache).wf(),
        forall|c: char, d: u32, q: Quality| tessellate.requires((c, d, q)),
    ensures
        final(cache).wf(),
        keeps_entries(old(cache)@, final(cache)@),
        result_view(out.0) == text_mesh_result(
            text_mesh.text@,
            text_mesh.style,
            text_mesh.size,
            final(cache)@,
        ),
        params_of(text_mesh.style, text_mesh.size) is Err ==> final(cache)@ == old(cache)@,
        covers(text_mesh.text@, text_mesh.style, text_mesh.size, old(cache)@) ==> final(cache)@
            == old(cache)@,
        out.0 is Ok ==> out.0->Ok_0@.wf() && covers(
            text_mesh.text@,
            text_mesh.style,
            text_mesh.size,
            final(cache)@,
        ),
        out.0 == Err::<MeshData, TextMeshError>(TextMeshError::TessellationFailed) ==> failure_explained(
            *tessellate,
            text_mesh.text@,
            text_mesh.style,
            text_mesh.size,
        ),
        new_entries_tessellated(
            *tessellate,
            text_mesh.text@,
            text_mesh.style,
            text_mesh.size,
            old(cache)@,
            final(cache)@,
        ),
        fallbacks_reported(
            *tessellate,
            text_mesh.text@,
            text_mesh.style,
            text_mesh.size,
            old(cache)@,
            final(cache)@,
            out.1@,
        ),
{
    proof {
        lemma_keeps_refl(cache@);
    }
    let mut fallbacks: Vec<char> = Vec::new();
    let p = match resolve_params(&text_mesh.style, &text_mesh.size) {
        Ok(p) => p,
        Err(e) => return (Err(e), fallbacks),
    };
    let folded_text = fold_case(text_mesh.text.as_str(), text_mesh.style.font_style);
    let chars = chars_of(folded_text.as_str());
    let ghost s = folded(text_mesh.text@, text_mesh.style.font_style);
    let ghost old_map = cache@;
    let ghost covered = covers(text_mesh.text@, text_mesh.style, text_mesh.size, old_map);
    let mut buf = LayoutBuffers::new(&p);
    assert(chars@.take(0) =~= Seq::<char>::empty());
    let mut i: usize = 0;
    while i < chars.len()
        invariant
            p.wf(),
            params_of(text_mesh.style, text_mesh.size) == Ok::<LayoutParams, TextMeshError>(p),
            chars@ == s,
            s == folded(text_mesh.text@, text_mesh.style.font_style),
            old_map == old(cache)@,
            cache.wf(),
            forall|c: char, d: u32, q: Quality| tessellate.requires((c, d, q)),
            i <= chars@.len(),
            keeps_entries(old_map, cache@),
            covered ==> cache@ == old_map,
            covered == covers(text_mesh.text@, text_mesh.style, text_mesh.size, old_map),
            layout_chars(p, cache@, chars@.take(i as int)) == Ok::<LayoutState, TextMeshError>(
                buf@,
            ),
            state_ok(buf@),
            new_entries_tessellated(
                *tessellate,
                text_mesh.text@,
                text_mesh.style,
                text_mesh.size,
                old_map,
                cache@,
            ),
            fallbacks_reported(
                *tessellate,
                text_mesh.text@,
                text_mesh.style,
                text_mesh.size,
                old_map,
                cache@,
                fallbacks@,
            ),
        decreases chars@.len() - i,
    {
        let c = chars[i];
        if c != ' ' && c != '\t' {
            let key = CacheKey::new_3d(c, p.depth);
            let ghost before = cache@;
            let ghost w = fallbacks@;
            let src = cache.get_or_insert(&key, p.quality, tessellate);
            let found = src != GlyphSource::Missing;
            if src == GlyphSource::Fallback {
                fallbacks.push(c);
            }
            proof {
                assert(keeps_entries(before, cache@)) by {
                    assert forall|k: u64| #[trigger] before.contains_key(k) implies cache@.contains_key(k)
                        && cache@[k] == before[k] by {
                        if !before.contains_key(key.spec_code()) && found {
                            assert(k != key.spec_code());
                        }
                    }
                }
                lemma_keeps_trans(old_map, before, cache@);
                lemma_layout_extend(p, before, cache@, chars@.take(i as int));
                assert(new_entries_tessellated(
                    *tessellate,
                    text_mesh.text@,
                    text_mesh.style,
                    text_mesh.size,
                    old_map,
                    cache@,
                )) by {
                    assert forall|k: u64|
                        #[trigger] cache@.contains_key(k) && !old_map.contains_key(k) implies exists|
                        j: int,
                    |
                        0 <= j < s.len() && key_code(s[j], p.depth.0) == k && tessellated(
                            *tessellate,
                            s[j],
                            p.depth.0,
                            p.quality,
                            cache@[k],
                        ) by {
                        if before.contains_key(k) {
                            assert(cache@[k] == before[k]);
                        } else {
                            assert(k == key.spec_code());
                            assert(key_code(s[i as int], p.depth.0) == k);
                        }
                    }
                }
                assert(fallbacks_reported(
                    *tessellate,
                    text_mesh.text@,
                    text_mesh.style,
                    text_mesh.size,
                    old_map,
                    cache@,
                    fallbacks@,
                )) by {
                    let d = p.depth.0;
                    let ws = fallbacks@;
                    assert forall|j: int| 0 <= j < ws.len() implies s.contains(#[trigger] ws[j])
                        && cache@.contains_key(key_code(ws[j], d)) && !old_map.contains_key(
                        key_code(ws[j], d),
                    ) && fallback_used(
                        *tessellate,
                        ws[j],
                        d,
                        p.quality,
                        cache@[key_code(ws[j], d)],
                    ) by {
                        if j < w.len() {
                            assert(ws[j] == w[j]);
                            assert(before.contains_key(key_code(w[j], d)));
                        } else {
                            assert(ws[j] == c);
                            assert(s[i as int] == c);
                        }
                    }
                    assert forall|k: u64|
                        #[trigger] cache@.contains_key(k) && !old_map.contains_key(k) implies exists|
                        j: int,
                    |
                        0 <= j < s.len() && key_code(s[j], d) == k && (tessellated_directly(
                            *tessellate,
                            s[j],
                            d,
                            p.quality,
                            cache@[k],
                        ) || ws.contains(s[j])) by {
                        if before.contains_key(k) {
                            assert(cache@[k] == before[k]);
                            let j = choose|j: int|
                                0 <= j < s.len() && key_code(s[j], d) == k && (
                                tessellated_directly(
                                    *tessellate,
                                    s[j],
                                    d,
                                    p.quality,
                                    before[k],
                                ) || w.contains(s[j]));
                            if w.contains(s[j]) {
                                let m = choose|m: int| 0 <= m < w.len() && w[m] == s[j];
                                assert(ws[m] == w[m]);
                            }
                        } else {
                            assert(k == key.spec_code());
                            assert(key_code(s[i as int], d) == k);
                            if src == GlyphSource::Fallback {
                                assert(ws[ws.len() - 1] == s[i as int]);
                            }
                        }
                    }
                }
                if covered {
                    lemma_covers_at(
                        text_mesh.text@,
                        text_mesh.style,
                        text_mesh.size,
                        old_map,
                        p,
                        i as int,
                    );
                }
            }
            if !found {
                proof {
                    assert(tessellation_failed(*tessellate, s[i as int], p.depth.0, p.quality));
                    lemma_layout_take(p, cache@, chars@, i as int);
                    lemma_layout_err_prefix(p, cache@, chars@, i + 1);
                }
                return (Err(TextMeshError::TessellationFailed), fallbacks);
            }
        }
        proof {
            lemma_layout_take(p, cache@, chars@, i as int);
        }
        let ghost before = buf@;
        match layout_char(&p, cache, &mut buf, c) {
            Ok(()) => {},
            Err(e) => {
                proof {
                    lemma_layout_err_prefix(p, cache@, chars@, i + 1);
                }
                return (Err(e), fallbacks);
            },
        }
        proof {
            lemma_step_ok(p, cache@, before, c);
        }
        i += 1;
    }
    assert(chars@.take(i as int) =~= chars@);
    proof {
        lemma_layout_covers(p, cache@, chars@);
    }
    (Ok(finish_exec(buf)), fallbacks)
}

/// Builds the mesh of a text object. Each character that needs a mesh is
/// looked up in `cache` by (character, quantized depth); on a miss it is
/// tessellated with `tessellate` (the fallback character standing in for a
/// character with no usable mesh) and stored. The result is the layout of
/// the folded text over the cache as it is afterwards.
pub fn generate_text_mesh<F: Fn(char, u32, Quality) -> Option<GlyphMesh>>(
    text_mesh: &TextMesh,
    tessellate: &F,
    cache: &mut MeshCache,
) -> (r: Result<MeshData, TextMeshError>)
    requires
        old(cache).wf(),
        forall|c: char, d: u32, q: Quality| tessellate.requires((c, d, q)),
    ensures
        final(cache).wf(),
        keeps_entries(old(cache)@, final(cache)@),
        result_view(r) == text_mesh_result(
            text_mesh.text@,
            text_mesh.style,
            text_mesh.size,
            final(cache)@,
        ),
        params_of(text_mesh.style, text_mesh.size) is Err ==> final(cache)@ == old(cache)@,
        covers(text_mesh.text@, text_mesh.style, text_mesh.size, old(cache)@) ==> final(cache)@
            == old(cache)@,
        r is Ok ==> r->Ok_0@.wf() && covers(
            text_mesh.text@,
            text_mesh.style,
            text_mesh.size,
            final(cache)@,
        ),
        r == Err::<MeshData, TextMeshError>(TextMeshError::TessellationFailed) ==> failure_explained(
            *tessellate,
            text_mesh.text@,
            text_mesh.style,
            text_mesh.size,
        ),
        new_entries_tessellated(
            *tessellate,
            text_mesh.text@,
            text_mesh.style,
            text_mesh.size,
            old(cache)@,
            final(cache)@,
        ),
{
    let (r, _fallbacks) = generate_text_mesh_reporting(text_mesh, tessellate, cache);
    r
}

/// `generate_text_mesh` with a cache of its own that lives for this call
/// only: repeated characters of the text are still tessellated once.
pub fn generate_text_mesh_uncached<F: Fn(char, u32, Quality) -> Option<GlyphMesh>>(
    text_mesh: &TextMesh,
    tessellate: &F,
) -> (r: Result<MeshData, TextMeshError>)
    requires
        forall|c: char, d: u32, q: Quality| tessellate.requires((c, d, q)),
    ensures
        exists|glyphs: Map<u64, GlyphMesh>|
            {
                &&& entries_wf(glyphs)
                &&& result_view(r) == text_mesh_result(
                    text_mesh.text@,
                    text_mesh.style,
                    text_mesh.size,
                    glyphs,
                )
                &&& new_entries_tessellated(
                    *tessellate,
                    text_mesh.text@,
                    text_mesh.style,
                    text_mesh.size,
                    Map::empty(),
                    glyphs,
                )
            },
        r is Ok ==> r->Ok_0@.wf(),
        r == Err::<MeshData, TextMeshError>(TextMeshError::TessellationFailed) ==> failure_explained(
            *tessellate,
            text_mesh.text@,
            text_mesh.style,
            text_mesh.size,
        ),
{
    let mut cache = MeshCache::new();
    let r = generate_text_mesh(text_mesh, tessellate, &mut cache);
    assert(entries_wf(cache@));
    assert(new_entries_tessellated(
        *tessellate,
        text_mesh.text@,
        text_mesh.style,
        text_mesh.size,
        Map::empty(),
        cache@,
    ));
    r
}

/// Any mesh built from well-formed glyph meshes has one normal and one
/// texture coordinate per vertex, a whole number of triangles, and indices
/// that all name vertices of the mesh.
pub proof fn lemma_mesh_wf(
    text: Seq<char>,
    style: TextMeshStyle,
    size: TextMeshSize,
    glyphs: Map<u64, GlyphMesh>,
)
    requires
        entries_wf(glyphs),
        text_mesh_result(text, style, size, glyphs) is Ok,
    ensures
        text_mesh_result(text, style, size, glyphs)->Ok_0.wf(),
{
    let p = params_of(style, size)->Ok_0;
    lemma_layout_ok(p, glyphs, folded(text, style.font_style));
}

/// Building the same text object a second time, over the cache that a
/// successful first build left, gives the same mesh and leaves the cache
/// unchanged. The premises are what `generate_text_mesh` ensures of each call.
pub proof fn lemma_generate_idempotent(
    text: Seq<char>,
    style: TextMeshStyle,
    size: TextMeshSize,
    m0: Map<u64, GlyphMesh>,
    m1: Map<u64, GlyphMesh>,
    r1: Result<MeshModel, TextMeshError>,
    m2: Map<u64, GlyphMesh>,
    r2: Result<MeshModel, TextMeshError>,
)
    requires
        keeps_entries(m0, m1),
        r1 == text_mesh_result(text, style, size, m1),
        r1 is Ok ==> covers(text, style, size, m1),
        keeps_entries(m1, m2),
        r2 == text_mesh_result(text, style, size, m2),
        covers(text, style, size, m1) ==> m2 == m1,
        r1 is Ok,
    ensures
        m2 == m1,
        r2 == r1,
{
}

/// A text of spaces and tabs with no case flag set needs no glyph mesh, so
/// no cache miss and no tessellation, and gives an empty mesh; only a text
/// of more than 256 such characters can run out of coordinate range.
pub proof fn lemma_blank_text_mesh(
    text: Seq<char>,
    style: TextMeshStyle,
    size: TextMeshSize,
    glyphs: Map<u64, GlyphMesh>,
)
    requires
        !style.font_style.has(FontStyle::UPPERCASE),
        !style.font_style.has(FontStyle::LOWERCASE),
        forall|i: int| 0 <= i < text.len() ==> is_blank(#[trigger] text[i]),
        params_of(style, size) is Ok,
    ensures
        covers(text, style, size, glyphs),
        match text_mesh_result(text, style, size, glyphs) {
            Ok(m) => {
                &&& m.vertices.len() == 0
                &&& m.normals.len() == 0
                &&& m.indices.len() == 0
                &&& m.uvs.len() == 0
            },
            Err(e) => e == TextMeshError::MeshTooLarge && text.len() > 256,
        },
{
    let p = params_of(style, size)->Ok_0;
    assert(folded(text, style.font_style) == text);
    lemma_blank_text(p, glyphs, text);
}

/// Upper case takes precedence: with the `UPPERCASE` flag set (whatever
/// else is set), a text lays out exactly as its upper-case form with no
/// case flag, over the same glyph meshes, and needs the same meshes.
pub proof fn lemma_upper_precedence(
    text: Seq<char>,
    style: TextMeshStyle,
    size: TextMeshSize,
    glyphs: Map<u64, GlyphMesh>,
)
    requires
        style.font_style.has(FontStyle::UPPERCASE),
    ensures
        text_mesh_result(text, style, size, glyphs) == text_mesh_result(
            upper_of(text),
            TextMeshStyle { font_style: FontStyle { bits: 0 }, ..style },
            size,
            glyphs,
        ),
        covers(text, style, size, glyphs) == covers(
            upper_of(text),
            TextMeshStyle { font_style: FontStyle { bits: 0 }, ..style },
            size,
            glyphs,
        ),
{
    let plain = TextMeshStyle { font_style: FontStyle { bits: 0 }, ..style };
    assert(0u32 & FontStyle::UPPERCASE == 0u32) by (bit_vector);
    assert(0u32 & FontStyle::LOWERCASE == 0u32) by (bit_vector);
    assert(folded(upper_of(text), plain.font_style) == upper_of(text));
    assert(params_of(plain, size) == params_of(style, size));
}

} // verus!
