//! Descriptions of how a shader resource is bound: access mode, array rank and
//! the shader stage that may see it.

use vstd::prelude::*;

verus! {

/// `wgpu::StorageTextureAccess`, an enum without fields; its variants are
/// read from its declaration.
#[verifier::external_type_specification]
pub struct ExStorageTextureAccess(wgpu::StorageTextureAccess);

/// `wgpu::TextureDimension`, an enum without fields; its variants are read
/// from its declaration.
#[verifier::external_type_specification]
pub struct ExTextureDimension(wgpu::TextureDimension);

/// `wgpu::TextureViewDimension`, an enum without fields; its variants are
/// read from its declaration.
#[verifier::external_type_specification]
pub struct ExTextureViewDimension(wgpu::TextureViewDimension);

/// `wgpu::ShaderStages`, a set of flags; a value of it is carried through
/// and nothing is known of what it holds.
#[verifier::external_type_specification]
#[verifier::external_body]
pub struct ExShaderStages(wgpu::ShaderStages);

/// The set of shader stages that `wgpu::ShaderStages::from_bits_truncate`
/// gives for `bits`. Nothing more is said of it.
pub uninterp spec fn stages_of_bits(bits: u32) -> wgpu::ShaderStages;

/// `wgpu::ShaderStages::from_bits_truncate`: the set of stages whose flags
/// are the known flags among `bits`. The claim is that the result is a
/// function of `bits` alone; the call accepts every `bits`.
#[verifier::external_body]
fn stages_from_bits(bits: u32) -> (stages: wgpu::ShaderStages)
    ensures
        stages == stages_of_bits(bits),
{
    wgpu::ShaderStages::from_bits_truncate(bits)
}

/// How a shader may touch a storage resource.
#[derive(Copy, Clone, Debug, PartialEq, Eq, Structural)]
pub enum Access {
    Write,
    Read,
    Both,
}

impl Access {
    /// The access as the graphics interface names it.
    pub fn to_wgpu(&self) -> (access: wgpu::StorageTextureAccess)
        ensures
            access == match *self {
                Access::Write => wgpu::StorageTextureAccess::WriteOnly,
                Access::Read => wgpu::StorageTextureAccess::ReadOnly,
                Access::Both => wgpu::StorageTextureAccess::ReadWrite,
            },
    {
        match *self {
            Access::Write => wgpu::StorageTextureAccess::WriteOnly,
            Access::Read => wgpu::StorageTextureAccess::ReadOnly,
            Access::Both => wgpu::StorageTextureAccess::ReadWrite,
        }
    }

    /// Tells whether the resource is bound read-only, which is the case for
    /// `Read` and for no other mode.
    pub fn to_bool_read(&self) -> (read_only: bool)
        ensures
            read_only <==> *self == Access::Read,
    {
        match *self {
            Access::Read => true,
            _ => false,
        }
    }
}

/// Number of dimensions an array resource is laid out in.
#[derive(Copy, Clone, Debug, PartialEq, Eq, Structural)]
pub enum Dimension {
    D1,
    D2,
    D3,
}

impl Dimension {
    /// The rank as the graphics interface names it for a texture.
    pub fn to_texture(&self) -> (dimension: wgpu::TextureDimension)
        ensures
            dimension == match *self {
                Dimension::D1 => wgpu::TextureDimension::D1,
                Dimension::D2 => wgpu::TextureDimension::D2,
                Dimension::D3 => wgpu::TextureDimension::D3,
            },
    {
        match *self {
            Dimension::D1 => wgpu::TextureDimension::D1,
            Dimension::D2 => wgpu::TextureDimension::D2,
            Dimension::D3 => wgpu::TextureDimension::D3,
        }
    }

    /// The rank as the graphics interface names it for a view of a texture:
    /// always a plain view, never an array or a cube.
    pub fn to_view(&self) -> (dimension: wgpu::TextureViewDimension)
        ensures
            dimension == match *self {
                Dimension::D1 => wgpu::TextureViewDimension::D1,
                Dimension::D2 => wgpu::TextureViewDimension::D2,
                Dimension::D3 => wgpu::TextureViewDimension::D3,
            },
    {
        match *self {
            Dimension::D1 => wgpu::TextureViewDimension::D1,
            Dimension::D2 => wgpu::TextureViewDimension::D2,
            Dimension::D3 => wgpu::TextureViewDimension::D3,
        }
    }
}

/// What a bind group layout entry is to say of a resource.
#[derive(Copy, Clone, Debug, PartialEq, Eq, Structural)]
pub enum BindingKind {
    /// A texture that shaders read and write as storage.
    StorageTexture { access: Access, view_dimension: Dimension },
    /// A texture of filterable floats that shaders sample, not multisampled.
    SampledTexture { view_dimension: Dimension },
    /// A storage buffer, read-only or not, without dynamic offset.
    StorageBuffer { read_only: bool },
}

/// How a texture is bound: the access shaders have to it, the rank of its
/// array, and whether it is bound as storage or to be sampled. The texture
/// itself is held by whoever holds this description.
#[derive(Copy, Clone, Debug, PartialEq, Eq, Structural)]
pub struct Texture {
    pub access: Access,
    pub dimension: Dimension,
    pub is_storage: bool,
}

impl Texture {
    /// The binding of a two-dimensional texture.
    pub fn new(access: Access, is_storage: bool) -> (texture: Self)
        ensures
            texture == (Texture { access, dimension: Dimension::D2, is_storage }),
    {
        Texture { access, dimension: Dimension::D2, is_storage }
    }

    /// Another binding of the same texture: with the access, rank and kind
    /// given in `data`, or with those of this binding where `data` is `None`.
    pub fn get_view(&self, data: Option<(Access, Dimension, bool)>) -> (view: Texture)
        ensures
            view == match data {
                Some(d) => (Texture { access: d.0, dimension: d.1, is_storage: d.2 }),
                None => *self,
            },
    {
        match data {
            Some(d) => Texture { access: d.0, dimension: d.1, is_storage: d.2 },
            None => *self,
        }
    }

    /// What the layout entry of the binding says: a storage texture with the
    /// binding's access where it is bound as storage, else a sampled texture;
    /// of the binding's rank either way.
    pub fn get_layout(&self) -> (kind: BindingKind)
        ensures
            kind == if self.is_storage {
                (BindingKind::StorageTexture {
                    access: self.access,
                    view_dimension: self.dimension,
                })
            } else {
                (BindingKind::SampledTexture { view_dimension: self.dimension })
            },
    {
        if self.is_storage {
            BindingKind::StorageTexture { access: self.access, view_dimension: self.dimension }
        } else {
            BindingKind::SampledTexture { view_dimension: self.dimension }
        }
    }
}

/// How a buffer is bound: the access shaders have to it.
#[derive(Copy, Clone, Debug, PartialEq, Eq, Structural)]
pub struct Buffer {
    pub access: Access,
}

impl Buffer {
    /// The binding of a buffer with the given access.
    pub fn new(access: Access) -> (buffer: Self)
        ensures
            buffer.access == access,
    {
        Buffer { access }
    }

    /// Another binding of the same buffer: with the access given in `data`,
    /// or with that of this binding where `data` is `None`.
    pub fn get_binding(&self, data: Option<(Access,)>) -> (binding: Buffer)
        ensures
            binding.access == match data {
                Some(d) => d.0,
                None => self.access,
            },
    {
        match data {
            Some(d) => Buffer { access: d.0 },
            None => Buffer { access: self.access },
        }
    }

    /// What the layout entry of the binding says: a storage buffer, read-only
    /// exactly where the access is `Read`.
    pub fn get_layout(&self) -> (kind: BindingKind)
        ensures
            kind == (BindingKind::StorageBuffer { read_only: self.access == Access::Read }),
    {
        BindingKind::StorageBuffer { read_only: self.access.to_bool_read() }
    }
}

/// Shader stage that is able to access a resource.
#[allow(non_camel_case_types)]
#[derive(Copy, Clone, Debug, PartialEq, Eq, Structural)]
pub enum Visibility {
    VERTEX,
    FRAGMENT,
    COMPUTE,
}

impl Visibility {
    /// The flag of the stage among the shader stage flags.
    pub open spec fn stage_flag(&self) -> u32 {
        match *self {
            Visibility::VERTEX => 1,
            Visibility::FRAGMENT => 2,
            Visibility::COMPUTE => 4,
        }
    }

    /// The stage as a set of shader stages.
    pub open spec fn wgpu_stages(&self) -> wgpu::ShaderStages {
        stages_of_bits(self.stage_flag())
    }

    /// The stage as the graphics interface names it: the set that holds this
    /// stage alone.
    pub fn to_wgpu(&self) -> (stages: wgpu::ShaderStages)
        ensures
            stages == self.wgpu_stages(),
    {
        let flag: u32 = match *self {
            Visibility::VERTEX => 1,
            Visibility::FRAGMENT => 2,
            Visibility::COMPUTE => 4,
        };
        stages_from_bits(flag)
    }
}

} // verus!
