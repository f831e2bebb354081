pub mod font_loader;
pub mod layout;
pub mod mesh_cache;
pub mod mesh_data_generator;
pub mod mesh_system;
pub mod text_mesh;

pub use font_loader::{FontLoader, FontLoaderError};
pub use layout::{LayoutParams, Pen, TextMeshError, OUTPUT_UNITS_PER_SCENE_UNIT};
pub use mesh_cache::{
    CacheKey, Depth, GlyphMesh, GlyphSource, MeshCache, MeshType, FALLBACK_CHAR,
};
pub use mesh_data_generator::{
    fold_case, generate_text_mesh, generate_text_mesh_reporting, generate_text_mesh_uncached,
    layout_text, MeshData,
};
pub use mesh_system::{font_loaded, plan_text_mesh, FontEvent, MeshAction, TextMeshState};
pub use text_mesh::{
    Color, FontHandle, FontStyle, HorizontalAlign, Quality, SizeUnit, TextMesh, TextMeshAlignment,
    TextMeshSize, TextMeshStyle, VerticalAlign,
};
