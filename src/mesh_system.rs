use vstd::prelude::*;

use crate::text_mesh::FontHandle;

verus! {

/// Per text object: whether its font has been seen to load (`None` until an
/// event about the font arrives).
#[derive(Clone, Copy, Debug, PartialEq, Eq, Structural)]
pub struct TextMeshState {
    pub font_loaded: Option<bool>,
}

impl Default for TextMeshState {
    fn default() -> (r: TextMeshState)
        ensures
            r.font_loaded == None::<bool>,
    {
        TextMeshState { font_loaded: None }
    }
}

/// What the host reports about a font resource.
#[derive(Clone, Copy, Debug, PartialEq, Eq, Structural)]
pub enum FontEvent {
    Created(FontHandle),
    Removed(FontHandle),
    Modified(FontHandle),
}

/// The state of a text object using `font` after `event`: marked loaded
/// when its font is created, not loaded when its font is removed, and
/// unchanged otherwise. A changed state makes the host rebuild the mesh.
pub open spec fn next_font_state(state: TextMeshState, font: FontHandle, event: FontEvent) -> TextMeshState {
    match event {
        FontEvent::Created(h) => if h == font {
            TextMeshState { font_loaded: Some(true) }
        } else {
            state
        },
        FontEvent::Removed(h) => if h == font {
            TextMeshState { font_loaded: Some(false) }
        } else {
            state
        },
        FontEvent::Modified(_) => state,
    }
}

pub fn font_loaded(state: TextMeshState, font: FontHandle, event: FontEvent) -> (r: TextMeshState)
    ensures
        r == next_font_state(state, font, event),
{
    match event {
        FontEvent::Created(h) => if h.id == font.id {
            TextMeshState { font_loaded: Some(true) }
        } else {
            state
        },
        FontEvent::Removed(h) => if h.id == font.id {
            TextMeshState { font_loaded: Some(false) }
        } else {
            state
        },
        FontEvent::Modified(_) => state,
    }
}

/// What the host does with one changed text object.
#[derive(Clone, Copy, Debug, PartialEq, Eq, Structural)]
pub enum MeshAction {
    /// The font is not available yet: build nothing now, retry when it loads.
    Skip,
    /// Build the mesh and replace the object's existing mesh with it.
    Update,
    /// Build the mesh and attach it, with a material, as a new mesh.
    Create,
}

pub fn plan_text_mesh(font_available: bool, has_mesh: bool) -> (r: MeshAction)
    ensures
        !font_available ==> r == MeshAction::Skip,
        font_available && has_mesh ==> r == MeshAction::Update,
        font_available && !has_mesh ==> r == MeshAction::Create,
{
    if !font_available {
        MeshAction::Skip
    } else if has_mesh {
        MeshAction::Update
    } else {
        MeshAction::Create
    }
}

} // verus!
