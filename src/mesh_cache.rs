use std::collections::HashMap;
use vstd::prelude::*;

use crate::text_mesh::Quality;

verus! {

broadcast use vstd::std_specs::hash::group_hash_axioms;

/// Largest magnitude of a glyph coordinate, in glyph units (thousandths of an em).
pub const GLYPH_COORD_LIMIT: i32 = 1048576;

/// Character whose mesh stands in for a character that has no outline.
pub const FALLBACK_CHAR: char = '?';

/// A vertex or a normal of a glyph mesh, in glyph units.
pub type GlyphPoint = (i32, i32, i32);

pub open spec fn point_in_range(p: GlyphPoint) -> bool {
    -GLYPH_COORD_LIMIT <= p.0 <= GLYPH_COORD_LIMIT && -GLYPH_COORD_LIMIT <= p.1
        <= GLYPH_COORD_LIMIT && -GLYPH_COORD_LIMIT <= p.2 <= GLYPH_COORD_LIMIT
}

/// The solid mesh of one glyph in its own coordinates: vertex positions,
/// one normal per vertex, and a triangle list of indices into the vertices.
#[derive(Debug)]
pub struct GlyphMesh {
    pub vertices: Vec<GlyphPoint>,
    pub normals: Vec<GlyphPoint>,
    pub indices: Vec<u32>,
}

impl GlyphMesh {
    /// Buffers aligned, whole triangles, indices in range, coordinates bounded.
    pub open spec fn wf(&self) -> bool {
        &&& self.normals@.len() == self.vertices@.len()
        &&& self.indices@.len() % 3 == 0
        &&& forall|i: int|
            0 <= i < self.indices@.len() ==> (#[trigger] self.indices@[i]) < self.vertices@.len()
        &&& forall|i: int| 0 <= i < self.vertices@.len() ==> point_in_range(#[trigger] self.vertices@[i])
    }

    /// Checks `wf` at run time.
    pub fn is_well_formed(&self) -> (r: bool)
        ensures
            r == self.wf(),
    {
        if self.normals.len() != self.vertices.len() || self.indices.len() % 3 != 0 {
            return false;
        }
        let n = self.vertices.len();
        let mut i: usize = 0;
        while i < self.indices.len()
            invariant
                i <= self.indices@.len(),
                n == self.vertices@.len(),
                forall|j: int| 0 <= j < i ==> (#[trigger] self.indices@[j]) < n,
            decreases self.indices@.len() - i,
        {
            if self.indices[i] as usize >= n {
                return false;
            }
            i += 1;
        }
        let mut j: usize = 0;
        while j < n
            invariant
                j <= n,
                n == self.vertices@.len(),
                forall|k: int| 0 <= k < j ==> point_in_range(#[trigger] self.vertices@[k]),
            decreases n - j,
        {
            let p = self.vertices[j];
            if p.0 < -GLYPH_COORD_LIMIT || p.0 > GLYPH_COORD_LIMIT || p.1 < -GLYPH_COORD_LIMIT || p.1
                > GLYPH_COORD_LIMIT || p.2 < -GLYPH_COORD_LIMIT || p.2 > GLYPH_COORD_LIMIT {
                return false;
            }
            j += 1;
        }
        true
    }
}

/// Extrusion depth, quantized to hundredths of the size scalar so that equal
/// depths always give equal keys.
#[derive(Clone, Copy, Debug, PartialEq, Eq, Hash, Structural)]
pub struct Depth(pub u32);

impl Depth {
    /// Quantizes the depth magnitude `m` (scalar `m / 144`) to hundredths.
    pub fn from_magnitude(m: u32) -> (d: Depth)
        ensures
            d.0 == quantize_depth(m as int),
    {
        Depth(((m as u64) * 100 / 144) as u32)
    }
}

/// Depth `m / 144`, in hundredths, rounded down.
pub open spec fn quantize_depth(m: int) -> int {
    m * 100 / 144
}

#[derive(Clone, Copy, Debug, PartialEq, Eq, Hash, Structural)]
pub enum MeshType {
    Mesh3d(Depth),
}

/// Identity of a tessellated glyph: the character and the quantized depth.
#[derive(Clone, Copy, Debug, PartialEq, Eq, Hash, Structural)]
pub struct CacheKey {
    pub character: char,
    pub mesh_type: MeshType,
}

/// The integer a (character, depth) pair is stored under; distinct pairs
/// give distinct codes.
pub open spec fn key_code(c: char, depth: u32) -> u64 {
    ((c as u64) * 4294967296 + depth as u64) as u64
}

impl CacheKey {
    pub fn new_3d(character: char, depth: Depth) -> (k: CacheKey)
        ensures
            k.character == character,
            k.mesh_type == MeshType::Mesh3d(depth),
    {
        CacheKey { character, mesh_type: MeshType::Mesh3d(depth) }
    }

    pub open spec fn depth(&self) -> u32 {
        match self.mesh_type {
            MeshType::Mesh3d(d) => d.0,
        }
    }

    pub open spec fn spec_code(&self) -> u64 {
        key_code(self.character, self.depth())
    }

    pub fn code(&self) -> (r: u64)
        ensures
            r == self.spec_code(),
    {
        let d = match self.mesh_type {
            MeshType::Mesh3d(d) => d.0,
        };
        (self.character as u64) * 4294967296 + d as u64
    }
}

/// Two keys are stored under the same code exactly when their characters
/// and quantized depths agree.
pub proof fn lemma_key_code_injective(c1: char, d1: u32, c2: char, d2: u32)
    ensures
        key_code(c1, d1) == key_code(c2, d2) <==> c1 == c2 && d1 == d2,
{
    assert((c1 as u64) <= 0x10FFFF);
    assert((c2 as u64) <= 0x10FFFF);
}

/// A tessellator's answer is used when it is a well-formed mesh.
pub open spec fn usable(r: Option<GlyphMesh>) -> bool {
    r is Some && r->0.wf()
}

/// `g` is what a cache miss on `(c, depth)` may store: the tessellation of
/// `c`, or, when that is unusable, the tessellation of the fallback character.
pub open spec fn tessellated<F: Fn(char, u32, Quality) -> Option<GlyphMesh>>(
    tessellate: F,
    c: char,
    depth: u32,
    quality: Quality,
    g: GlyphMesh,
) -> bool {
    tessellated_directly(tessellate, c, depth, quality, g) || fallback_used(
        tessellate,
        c,
        depth,
        quality,
        g,
    )
}

/// `g` is the character's own tessellation.
pub open spec fn tessellated_directly<F: Fn(char, u32, Quality) -> Option<GlyphMesh>>(
    tessellate: F,
    c: char,
    depth: u32,
    quality: Quality,
    g: GlyphMesh,
) -> bool {
    g.wf() && tessellate.ensures((c, depth, quality), Some(g))
}

/// The character gave no usable mesh and `g` is the fallback character's.
pub open spec fn fallback_used<F: Fn(char, u32, Quality) -> Option<GlyphMesh>>(
    tessellate: F,
    c: char,
    depth: u32,
    quality: Quality,
    g: GlyphMesh,
) -> bool {
    &&& g.wf()
    &&& exists|r: Option<GlyphMesh>|
        {
            &&& tessellate.ensures((c, depth, quality), r)
            &&& !usable(r)
            &&& tessellate.ensures((FALLBACK_CHAR, depth, quality), Some(g))
        }
}

/// Where the mesh for a key came from.
#[derive(Clone, Copy, Debug, PartialEq, Eq, Structural)]
pub enum GlyphSource {
    /// It was already cached.
    Cached,
    /// The character was tessellated.
    Tessellated,
    /// The character had no usable mesh; the fallback character's was stored.
    Fallback,
    /// Neither the character nor the fallback character gave a usable mesh.
    Missing,
}

/// Both the character and the fallback character gave no usable mesh.
pub open spec fn tessellation_failed<F: Fn(char, u32, Quality) -> Option<GlyphMesh>>(
    tessellate: F,
    c: char,
    depth: u32,
    quality: Quality,
) -> bool {
    exists|r1: Option<GlyphMesh>, r2: Option<GlyphMesh>|
        {
            &&& tessellate.ensures((c, depth, quality), r1)
            &&& !usable(r1)
            &&& tessellate.ensures((FALLBACK_CHAR, depth, quality), r2)
            &&& !usable(r2)
        }
}

/// `new` keeps every entry of `old` unchanged.
pub open spec fn keeps_entries(old: Map<u64, GlyphMesh>, new: Map<u64, GlyphMesh>) -> bool {
    forall|k: u64| #[trigger] old.contains_key(k) ==> new.contains_key(k) && new[k] == old[k]
}

/// Tessellated glyph meshes by (character, quantized depth). Entries are
/// never changed or evicted.
pub struct MeshCache {
    meshes: HashMap<u64, GlyphMesh>,
}

/// Every stored mesh is well formed.
pub open spec fn entries_wf(m: Map<u64, GlyphMesh>) -> bool {
    forall|k: u64| m.contains_key(k) ==> (#[trigger] m[k]).wf()
}

impl MeshCache {
    pub closed spec fn view(&self) -> Map<u64, GlyphMesh> {
        self.meshes@
    }

    pub open spec fn wf(&self) -> bool {
        entries_wf(self@)
    }

    pub fn new() -> (c: MeshCache)
        ensures
            c@ == Map::<u64, GlyphMesh>::empty(),
            c.wf(),
    {
        MeshCache { meshes: HashMap::new() }
    }

    pub fn len(&self) -> (r: usize)
        ensures
            r == self@.len(),
    {
        self.meshes.len()
    }

    pub fn get(&self, key: &CacheKey) -> (r: Option<&GlyphMesh>)
        ensures
            match r {
                Some(g) => self@.contains_key(key.spec_code()) && *g == self@[key.spec_code()],
                None => !self@.contains_key(key.spec_code()),
            },
    {
        let code = key.code();
        self.meshes.get(&code)
    }

    /// Makes sure the cache holds a mesh for `key`, tessellating on a miss
    /// (with the fallback character when the character gives no usable mesh).
    /// Says where the mesh came from, or that there is none.
    pub fn get_or_insert<F: Fn(char, u32, Quality) -> Option<GlyphMesh>>(
        &mut self,
        key: &CacheKey,
        quality: Quality,
        tessellate: &F,
    ) -> (src: GlyphSource)
        requires
            old(self).wf(),
            forall|c: char, d: u32, q: Quality| tessellate.requires((c, d, q)),
        ensures
            final(self).wf(),
            (src != GlyphSource::Missing) == final(self)@.contains_key(key.spec_code()),
            (src == GlyphSource::Cached) == old(self)@.contains_key(key.spec_code()),
            src == GlyphSource::Cached ==> final(self)@ == old(self)@,
            src == GlyphSource::Tessellated || src == GlyphSource::Fallback ==> final(self)@
                == old(self)@.insert(key.spec_code(), final(self)@[key.spec_code()]),
            src == GlyphSource::Tessellated ==> tessellated_directly(
                *tessellate,
                key.character,
                key.depth(),
                quality,
                final(self)@[key.spec_code()],
            ),
            src == GlyphSource::Fallback ==> fallback_used(
                *tessellate,
                key.character,
                key.depth(),
                quality,
                final(self)@[key.spec_code()],
            ),
            src == GlyphSource::Missing ==> final(self)@ == old(self)@ && tessellation_failed(
                *tessellate,
                key.character,
                key.depth(),
                quality,
            ),
    {
        let code = key.code();
        if self.meshes.contains_key(&code) {
            return GlyphSource::Cached;
        }
        let depth = match key.mesh_type {
            MeshType::Mesh3d(d) => d.0,
        };
        let first = tessellate(key.character, depth, quality);
        let ghost r1 = first;
        let first_ok = match &first {
            Some(g) => g.is_well_formed(),
            None => false,
        };
        assert(first_ok == usable(r1));
        if first_ok {
            match first {
                Some(g) => {
                    self.meshes.insert(code, g);
                    return GlyphSource::Tessellated;
                },
                None => {
                    return GlyphSource::Missing;
                },
            }
        }
        let second = tessellate(FALLBACK_CHAR, depth, quality);
        let ghost r2 = second;
        let second_ok = match &second {
            Some(g) => g.is_well_formed(),
            None => false,
        };
        assert(second_ok == usable(r2));
        if second_ok {
            match second {
                Some(g) => {
                    proof {
                        assert(tessellate.ensures((key.character, depth, quality), r1) && !usable(
                            r1,
                        ) && tessellate.ensures((FALLBACK_CHAR, depth, quality), Some(g)));
                    }
                    self.meshes.insert(code, g);
                    GlyphSource::Fallback
                },
                None => GlyphSource::Missing,
            }
        } else {
            assert(tessellation_failed(*tessellate, key.character, depth, quality));
            GlyphSource::Missing
        }
    }
}

impl Default for MeshCache {
    fn default() -> (c: MeshCache)
        ensures
            c@ == Map::<u64, GlyphMesh>::empty(),
            c.wf(),
    {
        MeshCache::new()
    }
}

} // verus!
