//! Asset vaults: content-hash deduplicated loading of assets through the
//! pending -> staged -> resident pipeline.

pub mod pipeline;
pub mod slots;
pub mod atlas;
pub mod content;
pub mod handles;
pub mod load;
pub mod mesh;
pub mod binding;
pub mod material;
