//! Camera framebuffer keys and the rule for reusing a camera's framebuffers.

use std::any::TypeId;
use vstd::prelude::*;
use crate::packing::UVec2;

verus! {

#[verifier::external_type_specification]
#[verifier::external_body]
pub struct ExTypeId(TypeId);

/// A key identifying one of a camera's auxiliary framebuffers (e.g. depth). `Str`
/// and `TypeId` variants let callers key framebuffers by their own identifiers
/// without needing to extend this enum.
#[derive(Clone, Copy, Debug, Default, Hash, PartialEq, Eq, PartialOrd, Ord)]
pub enum FrameBufferKey {
    #[default]
    Depth,
    U32(u32),
    TypeId(TypeId),
    Str(&'static str),
}

/// What to do with the framebuffer stored under a key when one of a given size is wanted.
#[derive(Clone, Copy, Debug, PartialEq, Eq, Structural)]
pub enum FramebufferAction {
    /// The stored framebuffer has the wanted size: hand it out.
    Reuse,
    /// There is none, or it has another size: create one and store it under the key.
    Create,
}

/// Decides between reusing and (re)creating a framebuffer: one is reused only if
/// it exists and has exactly the wanted width and height.
pub fn framebuffer_action(existing: Option<UVec2>, wanted: UVec2) -> (r: FramebufferAction)
    ensures
        r == (if existing == Some(wanted) { FramebufferAction::Reuse } else { FramebufferAction::Create }),
{
    match existing {
        Some(size) => {
            if size.x == wanted.x && size.y == wanted.y {
                FramebufferAction::Reuse
            } else {
                FramebufferAction::Create
            }
        },
        None => FramebufferAction::Create,
    }
}

} // verus!
