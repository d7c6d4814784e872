//! What the texture formats of `wgpu` say of the size of a texture.

use vstd::prelude::*;

verus! {

/// The formats, with their variants.
#[verifier::external_type_specification]
pub struct ExTextureFormat(wgpu::TextureFormat);

#[verifier::external_type_specification]
pub struct ExAstcBlock(wgpu::AstcBlock);

#[verifier::external_type_specification]
pub struct ExAstcChannel(wgpu::AstcChannel);

/// The extent of a texture, with its fields.
#[verifier::external_type_specification]
pub struct ExExtent3d(wgpu::Extent3d);

/// The usages of a texture, which are only carried and told apart.
#[verifier::external_type_specification]
#[verifier::external_body]
pub struct ExTextureUsages(wgpu::TextureUsages);

/// What `TextureFormat::block_copy_size` returns for a format where no aspect is
/// given.
pub uninterp spec fn block_copy_bytes(format: wgpu::TextureFormat) -> Option<u32>;

/// `TextureFormat::block_copy_size` without an aspect: the bytes that one texel
/// block occupies in a copy, and nothing for the formats whose blocks have no
/// one size. No block is empty or larger than sixteen bytes.
#[verifier::external_body]
pub(crate) fn block_copy_size(format: wgpu::TextureFormat) -> (bytes: Option<u32>)
    ensures
        bytes == block_copy_bytes(format),
        bytes is None <==> (format is Depth24Plus || format is Depth24PlusStencil8
            || format is Depth32FloatStencil8 || format is NV12 || format is P010),
        bytes matches Some(n) ==> 1 <= n <= 16,
{
    format.block_copy_size(None)
}

} // verus!
