use vstd::prelude::*;

verus! {

/// Font size used by the defaults, in the magnitude of `SizeUnit::NonStandard`.
pub const DEFAULT_FONT_SIZE: u32 = 18;

/// A length given by the user. `NonStandard(m)` stands for the dimensionless
/// scalar `m / 144`; `Auto` asks for automatic sizing, which is not supported.
#[derive(Clone, Copy, Debug, PartialEq, Eq, Structural)]
pub enum SizeUnit {
    Auto,
    NonStandard(u32),
}

impl SizeUnit {
    /// The magnitude whose 144th part is this length's scalar, or `None`
    /// for `Auto`. Layout works in units of 1/144, so the division is never
    /// carried out.
    pub fn as_scalar(&self) -> (r: Option<u32>)
        ensures
            r == (match *self {
                SizeUnit::Auto => None::<u32>,
                SizeUnit::NonStandard(m) => Some(m),
            }),
    {
        match self {
            SizeUnit::Auto => None,
            SizeUnit::NonStandard(m) => Some(*m),
        }
    }
}

/// Tessellation quality: how finely curves are subdivided.
#[derive(Clone, Copy, Debug, PartialEq, Eq, Structural)]
pub enum Quality {
    Low,
    Medium,
    High,
    Custom(u8),
}

/// Horizontal alignment of the text block (declared, not applied by layout).
#[derive(Clone, Copy, Debug, PartialEq, Eq, Structural)]
pub enum HorizontalAlign {
    Left,
    Center,
    Right,
}

/// Vertical alignment of the text block (declared, not applied by layout).
#[derive(Clone, Copy, Debug, PartialEq, Eq, Structural)]
pub enum VerticalAlign {
    Top,
    Center,
    Bottom,
}

/// A set of style flags. Case folding is applied by layout; the other
/// flags are accepted and ignored.
#[derive(Clone, Copy, Debug, PartialEq, Eq, Structural)]
pub struct FontStyle {
    pub bits: u32,
}

impl FontStyle {
    pub const BOLD: u32 = 0b1;
    pub const ITALIC: u32 = 0b10;
    pub const UNDERLINE: u32 = 0b100;
    pub const STRIKETHROUGH: u32 = 0b1000;
    pub const LOWERCASE: u32 = 0b10000;
    pub const UPPERCASE: u32 = 0b100000;

    /// Whether every bit of `flag` is set.
    pub open spec fn has(self, flag: u32) -> bool {
        self.bits & flag == flag
    }

    pub fn empty() -> (r: FontStyle)
        ensures
            r.bits == 0,
    {
        FontStyle { bits: 0 }
    }

    pub fn from_bits(bits: u32) -> (r: FontStyle)
        ensures
            r.bits == bits,
    {
        FontStyle { bits }
    }

    pub fn contains(&self, flag: u32) -> (r: bool)
        ensures
            r == self.has(flag),
    {
        self.bits & flag == flag
    }
}

impl Default for FontStyle {
    fn default() -> (r: FontStyle)
        ensures
            r.bits == 0,
    {
        FontStyle::empty()
    }
}

/// An RGBA colour, eight bits per channel.
#[derive(Clone, Copy, Debug, PartialEq, Eq, Structural)]
pub struct Color {
    pub r: u8,
    pub g: u8,
    pub b: u8,
    pub a: u8,
}

impl Color {
    pub fn white() -> (c: Color)
        ensures
            c == (Color { r: 255, g: 255, b: 255, a: 255 }),
    {
        Color { r: 255, g: 255, b: 255, a: 255 }
    }
}

/// Identifies a loaded font resource held by the host.
#[derive(Clone, Copy, Debug, PartialEq, Eq, Structural)]
pub struct FontHandle {
    pub id: u64,
}

impl Default for FontHandle {
    fn default() -> (r: FontHandle)
        ensures
            r.id == 0,
    {
        FontHandle { id: 0 }
    }
}

/// Box the text is laid out in, and the extrusion depth of its glyphs.
#[derive(Clone, Copy, Debug, PartialEq, Eq, Structural)]
pub struct TextMeshSize {
    pub width: SizeUnit,
    pub height: SizeUnit,
    pub depth: Option<SizeUnit>,
    pub wrapping: bool,
    pub overflow: bool,
}

/// The default box: 288 wide, 144 high, extruded 36 deep, wrapping.
pub open spec fn default_size() -> TextMeshSize {
    TextMeshSize {
        width: SizeUnit::NonStandard(288),
        height: SizeUnit::NonStandard(144),
        depth: Some(SizeUnit::NonStandard(36)),
        wrapping: true,
        overflow: false,
    }
}

impl Default for TextMeshSize {
    fn default() -> (r: TextMeshSize)
        ensures
            r == default_size(),
    {
        TextMeshSize {
            width: SizeUnit::NonStandard(DEFAULT_FONT_SIZE * 16),
            height: SizeUnit::NonStandard(DEFAULT_FONT_SIZE * 8),
            depth: Some(SizeUnit::NonStandard(DEFAULT_FONT_SIZE * 2)),
            wrapping: true,
            overflow: false,
        }
    }
}

#[derive(Clone, Copy, Debug, PartialEq, Eq, Structural)]
pub struct TextMeshStyle {
    pub font: FontHandle,
    pub font_size: SizeUnit,
    pub font_style: FontStyle,
    pub color: Color,
    pub mesh_quality: Quality,
}

/// The default style: font 0, size 18, no flags, white, medium quality.
pub open spec fn default_style() -> TextMeshStyle {
    TextMeshStyle {
        font: FontHandle { id: 0 },
        font_size: SizeUnit::NonStandard(18),
        font_style: FontStyle { bits: 0 },
        color: Color { r: 255, g: 255, b: 255, a: 255 },
        mesh_quality: Quality::Medium,
    }
}

impl Default for TextMeshStyle {
    fn default() -> (r: TextMeshStyle)
        ensures
            r == default_style(),
    {
        TextMeshStyle {
            font: FontHandle::default(),
            font_size: SizeUnit::NonStandard(DEFAULT_FONT_SIZE),
            font_style: FontStyle::empty(),
            color: Color::white(),
            mesh_quality: Quality::Medium,
        }
    }
}

/// Text alignment options (not applied by layout).
#[derive(Clone, Copy, Debug, PartialEq, Eq, Structural)]
pub struct TextMeshAlignment {
    pub vertical: VerticalAlign,
    pub horizontal: HorizontalAlign,
}

/// The default alignment: centred both ways.
pub open spec fn default_alignment() -> TextMeshAlignment {
    TextMeshAlignment { vertical: VerticalAlign::Center, horizontal: HorizontalAlign::Center }
}

impl Default for TextMeshAlignment {
    fn default() -> (r: TextMeshAlignment)
        ensures
            r == default_alignment(),
    {
        TextMeshAlignment { vertical: VerticalAlign::Center, horizontal: HorizontalAlign::Center }
    }
}

/// A text object: the string and how to style, align and size it.
#[derive(Debug)]
pub struct TextMesh {
    pub text: String,
    pub style: TextMeshStyle,
    pub alignment: TextMeshAlignment,
    pub size: TextMeshSize,
}

impl Default for TextMesh {
    fn default() -> (r: TextMesh)
        ensures
            r.text@ == "Hello World"@,
            r.style == default_style(),
            r.alignment == default_alignment(),
            r.size == default_size(),
    {
        TextMesh {
            text: "Hello World".to_owned(),
            style: TextMeshStyle::default(),
            alignment: TextMeshAlignment::default(),
            size: TextMeshSize::default(),
        }
    }
}

impl TextMesh {
    /// A text object with the given string and font and default settings.
    pub fn new(text: &str, font: FontHandle) -> (r: TextMesh)
        ensures
            r.text@ == text@,
            r.style == (TextMeshStyle { font, ..default_style() }),
            r.alignment == default_alignment(),
            r.size == default_size(),
    {
        let mut style = TextMeshStyle::default();
        style.font = font;
        TextMesh {
            text: text.to_owned(),
            style,
            alignment: TextMeshAlignment::default(),
            size: TextMeshSize::default(),
        }
    }

    /// A text object with the given string, font and colour.
    pub fn new_with_color(text: &str, font: FontHandle, color: Color) -> (r: TextMesh)
        ensures
            r.text@ == text@,
            r.style == (TextMeshStyle { font, color, ..default_style() }),
            r.alignment == default_alignment(),
            r.size == default_size(),
    {
        let mut r = TextMesh::new(text, font);
        r.style.color = color;
        r
    }

    /// A text object with the given string and the default font handle.
    pub fn new_no_font(text: &str) -> (r: TextMesh)
        ensures
            r.text@ == text@,
            r.style == default_style(),
            r.alignment == default_alignment(),
            r.size == default_size(),
    {
        TextMesh::new(text, FontHandle::default())
    }
}

} // verus!
