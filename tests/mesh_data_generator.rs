use std::cell::{Cell, RefCell};

use bevy_text_mesh::{
    fold_case, generate_text_mesh, generate_text_mesh_uncached, layout_text, CacheKey, Depth,
    FontStyle, GlyphMesh, MeshCache, MeshData, Quality, SizeUnit, TextMesh, TextMeshError,
    TextMeshSize, TextMeshStyle, FALLBACK_CHAR, GlyphSource, generate_text_mesh_reporting,
};

/// A flat rectangle: 4 vertices, 2 triangles.
fn quad(w: i32, h: i32) -> GlyphMesh {
    GlyphMesh {
        vertices: vec![(0, 0, 0), (w, 0, 0), (w, h, 0), (0, h, 0)],
        normals: vec![(0, 0, 1000); 4],
        indices: vec![0, 1, 2, 0, 2, 3],
    }
}

/// 6 vertices, 3 triangles.
fn hexa() -> GlyphMesh {
    GlyphMesh {
        vertices: vec![(0, 0, 0), (500, 0, 0), (500, 500, 0), (0, 500, 0), (0, 1000, 0), (500, 1000, 0)],
        normals: vec![(0, 0, 1000); 6],
        indices: vec![0, 1, 2, 0, 2, 3, 3, 2, 5],
    }
}

/// A two-glyph font: 'a' is a quad, 'b' a six-vertex mesh, '?' a small quad.
fn two_glyph_font(c: char, _depth: u32, _q: Quality) -> Option<GlyphMesh> {
    match c {
        'a' => Some(quad(1000, 1000)),
        'b' => Some(hexa()),
        '?' => Some(quad(200, 700)),
        _ => None,
    }
}

/// Every printable character is a unit square.
fn box_font(c: char, _depth: u32, _q: Quality) -> Option<GlyphMesh> {
    if c.is_whitespace() {
        None
    } else {
        Some(quad(1000, 1000))
    }
}

fn spec_with(text: &str, font_size: u32, width: u32, wrapping: bool) -> TextMesh {
    let mut tm = TextMesh::new_no_font(text);
    tm.style.font_size = SizeUnit::NonStandard(font_size);
    tm.size.width = SizeUnit::NonStandard(width);
    tm.size.wrapping = wrapping;
    tm
}

fn check_well_formed(m: &MeshData) {
    assert_eq!(m.vertices.len(), m.normals.len());
    assert_eq!(m.vertices.len(), m.uvs.len());
    assert_eq!(m.indices.len() % 3, 0);
    for i in &m.indices {
        assert!((*i as usize) < m.vertices.len());
    }
}

#[test]
fn test_generate_mesh() {
    let mut mesh_cache = MeshCache::new();
    let text_mesh = TextMesh {
        text: "hello world!".to_string(),
        size: TextMeshSize {
            width: SizeUnit::NonStandard(36 * 2),
            height: SizeUnit::NonStandard(36 * 5),
            ..Default::default()
        },
        style: TextMeshStyle { font_size: SizeUnit::NonStandard(18), ..Default::default() },
        ..Default::default()
    };

    let r = generate_text_mesh(&text_mesh, &box_font, &mut mesh_cache);
    let m = r.unwrap();
    check_well_formed(&m);
    assert_eq!(m.vertices.len(), 11 * 4);
}

#[test]
fn end_to_end_two_glyphs() {
    let mut tm = spec_with("ab", 18, 288, false);
    tm.size.depth = Some(SizeUnit::NonStandard(12));
    let mut cache = MeshCache::new();
    let m = generate_text_mesh(&tm, &two_glyph_font, &mut cache).unwrap();
    assert_eq!(m.vertices.len(), 10);
    assert_eq!(m.indices.len(), 15);
    let a = quad(1000, 1000);
    let b = hexa();
    assert_eq!(&m.indices[..6], &a.indices[..]);
    for k in 0..9 {
        assert_eq!(m.indices[6 + k], b.indices[k] + 4);
    }
    check_well_formed(&m);
}

#[test]
fn placement_formula() {
    // font 18: scale 1800, unit 1_800_000, spacing (144_000, 180_000);
    // width 288 gives line start -14_400_000; height 144 gives top 5_400_000.
    let tm = spec_with("ab", 18, 288, false);
    let mut cache = MeshCache::new();
    let m = generate_text_mesh(&tm, &two_glyph_font, &mut cache).unwrap();
    assert_eq!(m.vertices[0], (-14_400_000, 5_400_000, 0));
    assert_eq!(m.vertices[1], (-12_600_000, 5_400_000, 0));
    assert_eq!(m.vertices[2], (-12_600_000, 7_200_000, 0));
    // 'b' starts after 'a's width plus the horizontal spacing
    assert_eq!(m.vertices[4], (-12_456_000, 5_400_000, 0));
    assert_eq!(m.vertices[9], (-12_456_000 + 900_000, 5_400_000 + 1_800_000, 0));
    assert_eq!(m.normals[0], (0, 0, 1000));
    assert_eq!(m.uvs[0], (0, 1));
}

#[test]
fn space_and_tab_advance() {
    // a space moves the pen by 504_000 (0.2 + 0.08 of the scalar)
    let tm = spec_with(" a", 18, 288, false);
    let mut cache = MeshCache::new();
    let m = generate_text_mesh(&tm, &two_glyph_font, &mut cache).unwrap();
    assert_eq!(m.vertices[0], (-14_400_000 + 504_000, 5_400_000, 0));
    // a tab at column 0 moves to the next stop: four space widths
    let tm = spec_with("\ta", 18, 288, false);
    let m = generate_text_mesh(&tm, &two_glyph_font, &mut cache).unwrap();
    assert_eq!(m.vertices[0], (-14_400_000 + 4 * 504_000, 5_400_000, 0));
    // after one glyph (column 1) a tab covers three columns
    let tm = spec_with("a\ta", 18, 288, false);
    let m = generate_text_mesh(&tm, &two_glyph_font, &mut cache).unwrap();
    assert_eq!(m.vertices[4], (-12_456_000 + 3 * 504_000, 5_400_000, 0));
}

#[test]
fn whitespace_only_is_empty() {
    let tm = spec_with("  \t \t  ", 18, 288, true);
    let calls = Cell::new(0usize);
    let counting = |c: char, d: u32, q: Quality| {
        calls.set(calls.get() + 1);
        two_glyph_font(c, d, q)
    };
    let mut cache = MeshCache::new();
    let m = generate_text_mesh(&tm, &counting, &mut cache).unwrap();
    assert!(m.vertices.is_empty());
    assert!(m.normals.is_empty());
    assert!(m.indices.is_empty());
    assert!(m.uvs.is_empty());
    assert_eq!(calls.get(), 0);
}

#[test]
fn wrap_threshold() {
    // width 54: line from -2_700_000 to 2_700_000; each 'a' advances 1_944_000,
    // and a row needs room for 1_944_000 more after the pen.
    let tm = spec_with("aaa", 18, 54, true);
    let mut cache = MeshCache::new();
    let m = generate_text_mesh(&tm, &two_glyph_font, &mut cache).unwrap();
    // first two glyphs on the first row
    assert_eq!(m.vertices[0], (-2_700_000, 5_400_000, 0));
    assert_eq!(m.vertices[4], (-2_700_000 + 1_944_000, 5_400_000, 0));
    // the third starts a new row, lower by row height 1_800_000 plus 180_000
    assert_eq!(m.vertices[8], (-2_700_000, 5_400_000 - 1_980_000, 0));
}

#[test]
fn no_wrap_when_disabled() {
    let tm = spec_with("aaa", 18, 54, false);
    let mut cache = MeshCache::new();
    let m = generate_text_mesh(&tm, &two_glyph_font, &mut cache).unwrap();
    assert_eq!(m.vertices[8], (-2_700_000 + 2 * 1_944_000, 5_400_000, 0));
}

#[test]
fn row_height_resets_after_wrap() {
    // width 18: every glyph fills its row. 'b' is 1000 high, '?' is 700 high.
    let tm = spec_with("b??", 18, 18, true);
    let mut cache = MeshCache::new();
    let m = generate_text_mesh(&tm, &two_glyph_font, &mut cache).unwrap();
    let row1 = 5_400_000;
    let row2 = row1 - (1_800_000 + 180_000);
    let row3 = row2 - (1_260_000 + 180_000);
    assert_eq!(m.vertices[6].1, row2);
    assert_eq!(m.vertices[10].1, row3);
}

#[test]
fn case_folding_upper_wins() {
    let seen = RefCell::new(Vec::new());
    let recording = |c: char, d: u32, q: Quality| {
        seen.borrow_mut().push(c);
        box_font(c, d, q)
    };
    let mut tm = spec_with("aB", 18, 288, false);
    tm.style.font_style = FontStyle::from_bits(FontStyle::UPPERCASE | FontStyle::LOWERCASE);
    let mut cache = MeshCache::new();
    generate_text_mesh(&tm, &recording, &mut cache).unwrap();
    assert_eq!(*seen.borrow(), vec!['A', 'B']);
    assert_eq!(fold_case("aB", tm.style.font_style), "AB");
    assert_eq!(fold_case("aB", FontStyle::from_bits(FontStyle::LOWERCASE)), "ab");
    assert_eq!(fold_case("aB", FontStyle::from_bits(FontStyle::BOLD)), "aB");
}

#[test]
fn unknown_glyph_uses_fallback() {
    let tm = spec_with("z", 18, 288, false);
    let mut cache = MeshCache::new();
    let m = generate_text_mesh(&tm, &two_glyph_font, &mut cache).unwrap();
    let fallback = quad(200, 700);
    assert_eq!(m.vertices.len(), fallback.vertices.len());
    assert_eq!(m.vertices[2], (-14_400_000 + 200 * 1800, 5_400_000 + 700 * 1800, 0));
    assert_eq!(FALLBACK_CHAR, '?');
}

#[test]
fn malformed_glyph_uses_fallback() {
    let bad = |c: char, d: u32, q: Quality| {
        if c == 'x' {
            Some(GlyphMesh { vertices: vec![(0, 0, 0)], normals: vec![(0, 0, 1)], indices: vec![0, 1, 2] })
        } else {
            two_glyph_font(c, d, q)
        }
    };
    let tm = spec_with("x", 18, 288, false);
    let mut cache = MeshCache::new();
    let m = generate_text_mesh(&tm, &bad, &mut cache).unwrap();
    assert_eq!(m.vertices.len(), 4);
}

#[test]
fn tessellation_failed_without_fallback() {
    let none = |_c: char, _d: u32, _q: Quality| -> Option<GlyphMesh> { None };
    let tm = spec_with("a", 18, 288, false);
    let mut cache = MeshCache::new();
    assert_eq!(generate_text_mesh(&tm, &none, &mut cache).unwrap_err(), TextMeshError::TessellationFailed);
    assert_eq!(cache.len(), 0);
}

#[test]
fn cache_hit_skips_tessellation() {
    let calls = Cell::new(0usize);
    let counting = |c: char, d: u32, q: Quality| {
        calls.set(calls.get() + 1);
        two_glyph_font(c, d, q)
    };
    let tm = spec_with("a", 18, 288, false);
    let mut cache = MeshCache::new();
    generate_text_mesh(&tm, &counting, &mut cache).unwrap();
    assert_eq!(calls.get(), 1);
    generate_text_mesh(&tm, &counting, &mut cache).unwrap();
    assert_eq!(calls.get(), 1);
    // repeated characters within one text are tessellated once, even uncached
    calls.set(0);
    let tm = spec_with("aaaa", 18, 288, false);
    generate_text_mesh_uncached(&tm, &counting).unwrap();
    assert_eq!(calls.get(), 1);
}

#[test]
fn cache_entries_are_stable() {
    let mut cache = MeshCache::new();
    let key = CacheKey::new_3d('a', Depth(25));
    assert_eq!(cache.get_or_insert(&key, Quality::Medium, &two_glyph_font), GlyphSource::Tessellated);
    let first = cache.get(&key).unwrap().vertices.clone();
    let other = |_c: char, _d: u32, _q: Quality| Some(quad(5, 5));
    assert_eq!(cache.get_or_insert(&key, Quality::Medium, &other), GlyphSource::Cached);
    assert_eq!(cache.get(&key).unwrap().vertices, first);
    assert_eq!(cache.len(), 1);
    // another depth is another entry
    let deeper = CacheKey::new_3d('a', Depth(26));
    assert_eq!(cache.get_or_insert(&deeper, Quality::Medium, &other), GlyphSource::Tessellated);
    // a character with no outline takes the fallback, one with neither is missing
    let zed = CacheKey::new_3d('z', Depth(25));
    assert_eq!(cache.get_or_insert(&zed, Quality::Medium, &two_glyph_font), GlyphSource::Fallback);
    assert_eq!(cache.get(&zed).unwrap().vertices, quad(200, 700).vertices);
    let none = |_c: char, _d: u32, _q: Quality| -> Option<GlyphMesh> { None };
    let why = CacheKey::new_3d('y', Depth(25));
    assert_eq!(cache.get_or_insert(&why, Quality::Medium, &none), GlyphSource::Missing);
    assert!(cache.get(&why).is_none());
    assert_eq!(cache.len(), 3);
}

#[test]
fn idempotent_generation() {
    let tm = spec_with("abba ab", 18, 72, true);
    let mut cache = MeshCache::new();
    let m1 = generate_text_mesh(&tm, &two_glyph_font, &mut cache).unwrap();
    let n = cache.len();
    let m2 = generate_text_mesh(&tm, &two_glyph_font, &mut cache).unwrap();
    assert_eq!(cache.len(), n);
    assert_eq!(m1.vertices, m2.vertices);
    assert_eq!(m1.normals, m2.normals);
    assert_eq!(m1.indices, m2.indices);
    assert_eq!(m1.uvs, m2.uvs);
}

#[test]
fn depth_is_quantized_for_tessellation() {
    let seen = RefCell::new(Vec::new());
    let recording = |c: char, d: u32, q: Quality| {
        seen.borrow_mut().push((d, q));
        box_font(c, d, q)
    };
    let mut tm = spec_with("a", 18, 288, false);
    tm.style.mesh_quality = Quality::High;
    let mut cache = MeshCache::new();
    generate_text_mesh(&tm, &recording, &mut cache).unwrap();
    // default depth 36 is the scalar 0.25: 25 hundredths
    assert_eq!(*seen.borrow(), vec![(25, Quality::High)]);
    assert_eq!(Depth::from_magnitude(36), Depth(25));
    assert_eq!(Depth::from_magnitude(12), Depth(8));
}

#[test]
fn unresolved_sizes_fail() {
    let mut cache = MeshCache::new();
    let mut tm = spec_with("a", 18, 288, false);
    tm.style.font_size = SizeUnit::Auto;
    assert_eq!(generate_text_mesh(&tm, &box_font, &mut cache).unwrap_err(), TextMeshError::FontSizeUnresolved);
    let mut tm = spec_with("a", 18, 288, false);
    tm.size.depth = None;
    assert_eq!(generate_text_mesh(&tm, &box_font, &mut cache).unwrap_err(), TextMeshError::DepthUnresolved);
    tm.size.depth = Some(SizeUnit::Auto);
    assert_eq!(generate_text_mesh(&tm, &box_font, &mut cache).unwrap_err(), TextMeshError::DepthUnresolved);
    let mut tm = spec_with("a", 18, 288, false);
    tm.size.height = SizeUnit::Auto;
    assert_eq!(generate_text_mesh(&tm, &box_font, &mut cache).unwrap_err(), TextMeshError::SizeUnresolved);
    assert_eq!(cache.len(), 0);
}

#[test]
fn huge_text_is_too_large() {
    let text = " ".repeat(20000);
    let tm = spec_with(&text, u32::MAX, u32::MAX, false);
    assert_eq!(generate_text_mesh_uncached(&tm, &box_font).unwrap_err(), TextMeshError::MeshTooLarge);
}

#[test]
fn empty_text_is_empty_mesh() {
    let tm = spec_with("", 18, 288, true);
    let m = generate_text_mesh_uncached(&tm, &box_font).unwrap();
    assert!(m.vertices.is_empty() && m.indices.is_empty());
}

#[test]
fn layout_over_given_cache() {
    let tm = spec_with("ab", 18, 288, false);
    let p = bevy_text_mesh::mesh_data_generator::resolve_params(&tm.style, &tm.size).unwrap();
    let mut cache = MeshCache::default();
    let key_a = CacheKey::new_3d('a', p.depth);
    assert_eq!(cache.get_or_insert(&key_a, p.quality, &two_glyph_font), GlyphSource::Tessellated);
    let chars = vec!['a', 'b'];
    // 'b' is not cached: layout alone does not tessellate
    assert_eq!(layout_text(&chars, &p, &cache).unwrap_err(), TextMeshError::TessellationFailed);
    let key_b = CacheKey::new_3d('b', p.depth);
    assert_eq!(cache.get_or_insert(&key_b, p.quality, &two_glyph_font), GlyphSource::Tessellated);
    let m = layout_text(&chars, &p, &cache).unwrap();
    assert_eq!(m.vertices.len(), 10);
    assert_eq!(m.vertices[4], (-12_456_000, 5_400_000, 0));
}

#[test]
fn fallbacks_are_reported() {
    let tm = spec_with("azbz", 18, 288, false);
    let mut cache = MeshCache::new();
    let (r, fallbacks) = generate_text_mesh_reporting(&tm, &two_glyph_font, &mut cache);
    assert_eq!(r.unwrap().vertices.len(), 4 + 4 + 6 + 4);
    // 'z' is reported once: its second use is a cache hit
    assert_eq!(fallbacks, vec!['z']);
    let (_, again) = generate_text_mesh_reporting(&tm, &two_glyph_font, &mut cache);
    assert!(again.is_empty());
}

#[test]
fn fallback_lays_out_as_fallback_char() {
    let mut cache = MeshCache::new();
    let with_z = generate_text_mesh(&spec_with("aza", 18, 288, false), &two_glyph_font, &mut cache).unwrap();
    let with_q = generate_text_mesh(&spec_with("a?a", 18, 288, false), &two_glyph_font, &mut cache).unwrap();
    assert_eq!(with_z.vertices, with_q.vertices);
    assert_eq!(with_z.indices, with_q.indices);
}

#[test]
fn uncached_fails_only_without_fallback() {
    let none = |_c: char, _d: u32, _q: Quality| -> Option<GlyphMesh> { None };
    let tm = spec_with("ab", 18, 288, false);
    assert_eq!(generate_text_mesh_uncached(&tm, &none).unwrap_err(), TextMeshError::TessellationFailed);
    let m = generate_text_mesh_uncached(&tm, &two_glyph_font).unwrap();
    assert_eq!(m.vertices.len(), 10);
}
