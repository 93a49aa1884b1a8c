//! Verified core of the gearbox renderer: atlas shelf packing, primitive mesh
//! topology, and the asset-vault load pipeline.

pub mod camera;
pub mod packing;
pub mod shapes;
pub mod vault;

pub use camera::{framebuffer_action, FrameBufferKey, FramebufferAction};
pub use packing::{PlaceError, ShelfPacker, UVec2};
pub use shapes::builder::{merge_mesh_data, CapsuleDrawInstructions, Shape, ShapeBuilder, ShapeBuilderError, ShapeMeshData};
pub use shapes::sphere::{sphere_topology, subdivide, triangle_indices, SphereTopology};
pub use shapes::topology::{capsule_indices, cone_indices, cube_indices, cylinder_indices};
pub use vault::atlas::{page_action, StagedOutcome, AtlasTextureAsset, AtlasUpload, AtlasVaultState, PageAction, INITIAL_ATLAS_SIZE};
pub use vault::binding::{check_bindable, needs_bind_group_rebuild, BindError};
pub use vault::content::{decode_texture, texture_from_decoded, AssetContent, DecodedTexture, MeshLoadType, TextureDecodeError, TextureType};
pub use vault::handles::{releases_asset, Asset, AssetVault, Handle, HandleInner};
pub use vault::load::LoadTicket;
pub use vault::material::LazySlots;
pub use vault::mesh::append_model_indices;
pub use vault::pipeline::LoadPipeline;
pub use vault::slots::SlotVault;
