//! Host layout metadata of the scene's buffer types, as the shader compiler reads it.
use vstd::prelude::*;

verus! {

/// The size of one host buffer type and the byte offset of each of its fields.
pub struct SceneBufferLayout {
    /// The shader-side name of the type.
    pub name: &'static str,
    /// The size of the host type in bytes.
    pub size: usize,
    /// Each field's name and byte offset, in declaration order.
    pub fields: &'static [(&'static str, usize)],
}

} // verus!
