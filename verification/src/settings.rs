//! Immutable configuration for a render call.

use vstd::prelude::*;

verus! {

/// The output target of a render call.
#[derive(Copy, Clone, Debug, Hash, PartialEq, Eq, Structural)]
pub enum ModuleRenderMode {
    Html,
    Text,
}

/// What each render mode is called.
pub open spec fn mode_name_spec(mode: ModuleRenderMode) -> Seq<char> {
    match mode {
        ModuleRenderMode::Html => "Html"@,
        ModuleRenderMode::Text => "Text"@,
    }
}

impl ModuleRenderMode {
    /// The mode's name.
    pub fn name(self) -> (r: &'static str)
        ensures
            r@ == mode_name_spec(self),
    {
        match self {
            ModuleRenderMode::Html => "Html",
            ModuleRenderMode::Text => "Text",
        }
    }
}

/// Recognized wikitext options.
#[derive(Copy, Clone, Debug, PartialEq, Eq, Structural)]
pub struct WikitextSettings {
    /// The output target.
    pub mode: ModuleRenderMode,
    /// Gates file-relative image sources; a render call with this unset
    /// never resolves a file-relative image to a link.
    pub allow_local_paths: bool,
}

} // verus!
