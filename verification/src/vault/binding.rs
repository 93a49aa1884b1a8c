//! When a texture vault's bind group may be bound, and when it must be rebuilt.

use vstd::prelude::*;

verus! {

/// Why a texture vault could not be bound to a render pass.
#[derive(Clone, Copy, Debug, PartialEq, Eq, Structural)]
pub enum BindError {
    /// No texture has been uploaded yet.
    NoLoadedTextures,
    /// Textures are uploaded but their bind group has not been built.
    MissingBindGroup,
}

/// Checks that a vault holding `texture_count` uploaded textures can be bound:
/// it needs at least one texture, and then a built bind group.
pub fn check_bindable(texture_count: usize, has_bind_group: bool) -> (r: Result<(), BindError>)
    ensures
        texture_count < 1 ==> r == Err::<(), BindError>(BindError::NoLoadedTextures),
        texture_count >= 1 && !has_bind_group ==> r == Err::<(), BindError>(BindError::MissingBindGroup),
        texture_count >= 1 && has_bind_group ==> r == Ok::<(), BindError>(()),
{
    if texture_count < 1 {
        return Err(BindError::NoLoadedTextures);
    }
    if !has_bind_group {
        return Err(BindError::MissingBindGroup);
    }
    Ok(())
}

/// Whether the bind group must be rebuilt: when textures were uploaded since the
/// last build (`dirty`) or none was ever built, and there is a texture to bind.
pub fn needs_bind_group_rebuild(dirty: bool, has_bind_group: bool, texture_count: usize) -> (r: bool)
    ensures
        r == ((dirty || !has_bind_group) && texture_count > 0),
{
    (dirty || !has_bind_group) && texture_count > 0
}

} // verus!
