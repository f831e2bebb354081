use bevy_text_mesh::{
    font_loaded, plan_text_mesh, Color, FontEvent, FontHandle, FontLoader, FontLoaderError,
    FontStyle, HorizontalAlign, MeshAction, Quality, SizeUnit, TextMesh, TextMeshAlignment,
    TextMeshSize, TextMeshState, TextMeshStyle, VerticalAlign,
};

#[test]
fn size_unit_scalar() {
    assert_eq!(SizeUnit::Auto.as_scalar(), None);
    assert_eq!(SizeUnit::NonStandard(144).as_scalar(), Some(144));
}

#[test]
fn defaults() {
    let size = TextMeshSize::default();
    assert_eq!(size.width, SizeUnit::NonStandard(288));
    assert_eq!(size.height, SizeUnit::NonStandard(144));
    assert_eq!(size.depth, Some(SizeUnit::NonStandard(36)));
    assert!(size.wrapping);
    assert!(!size.overflow);
    let style = TextMeshStyle::default();
    assert_eq!(style.font_size, SizeUnit::NonStandard(18));
    assert_eq!(style.font_style, FontStyle::empty());
    assert_eq!(style.color, Color::white());
    assert_eq!(style.mesh_quality, Quality::Medium);
    let align = TextMeshAlignment::default();
    assert_eq!(align.vertical, VerticalAlign::Center);
    assert_eq!(align.horizontal, HorizontalAlign::Center);
    assert_eq!(TextMesh::default().text, "Hello World");
}

#[test]
fn constructors() {
    let font = FontHandle { id: 7 };
    let t = TextMesh::new("hi", font);
    assert_eq!(t.text, "hi");
    assert_eq!(t.style.font, font);
    let red = Color { r: 255, g: 0, b: 0, a: 255 };
    let t = TextMesh::new_with_color("hi", font, red);
    assert_eq!(t.style.color, red);
    assert_eq!(t.style.font, font);
    assert_eq!(t.alignment, TextMeshAlignment::default());
    let t = TextMesh::new_no_font("x");
    assert_eq!(t.style, TextMeshStyle::default());
    assert_eq!(t.alignment, TextMeshAlignment::default());
    let t = TextMesh::default();
    assert_eq!(t.style, TextMeshStyle::default());
    assert_eq!(t.size, TextMeshSize::default());
}

#[test]
fn font_style_flags() {
    let s = FontStyle::from_bits(FontStyle::BOLD | FontStyle::UPPERCASE);
    assert!(s.contains(FontStyle::BOLD));
    assert!(s.contains(FontStyle::UPPERCASE));
    assert!(!s.contains(FontStyle::LOWERCASE));
    assert!(!s.contains(FontStyle::BOLD | FontStyle::ITALIC));
}

#[test]
fn font_events() {
    let font = FontHandle { id: 3 };
    let other = FontHandle { id: 4 };
    let s = TextMeshState::default();
    assert_eq!(s.font_loaded, None);
    let s = font_loaded(s, font, FontEvent::Created(other));
    assert_eq!(s.font_loaded, None);
    let s = font_loaded(s, font, FontEvent::Created(font));
    assert_eq!(s.font_loaded, Some(true));
    let s = font_loaded(s, font, FontEvent::Modified(font));
    assert_eq!(s.font_loaded, Some(true));
    let s = font_loaded(s, font, FontEvent::Removed(font));
    assert_eq!(s.font_loaded, Some(false));
}

#[test]
fn mesh_actions() {
    assert_eq!(plan_text_mesh(false, true), MeshAction::Skip);
    assert_eq!(plan_text_mesh(true, true), MeshAction::Update);
    assert_eq!(plan_text_mesh(true, false), MeshAction::Create);
}

#[test]
fn loader_extensions() {
    assert_eq!(FontLoader::default().extensions(), vec!["ttf"]);
    assert_eq!(FontLoaderError.message(), "unable to load font");
}
