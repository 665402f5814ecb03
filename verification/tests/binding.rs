use sph_fluid::binding::{Access, BindingKind, Buffer, Dimension, Texture, Visibility};

#[test]
fn read_access_is_read_only() {
    assert!(Access::Read.to_bool_read());
}

#[test]
fn write_access_is_not_read_only() {
    assert!(!Access::Write.to_bool_read());
}

#[test]
fn both_access_is_not_read_only() {
    assert!(!Access::Both.to_bool_read());
}

#[test]
fn binding_enums_compare_by_variant() {
    assert_eq!(Dimension::D2, Dimension::D2);
    assert_ne!(Dimension::D1, Dimension::D3);
    assert_eq!(Visibility::COMPUTE, Visibility::COMPUTE);
    assert_ne!(Visibility::VERTEX, Visibility::FRAGMENT);
    let copy = Access::Both;
    assert_eq!(copy, Access::Both);
}

#[test]
fn new_texture_binding_is_two_dimensional() {
    let texture = Texture::new(Access::Both, false);
    assert_eq!(texture.access, Access::Both);
    assert_eq!(texture.dimension, Dimension::D2);
    assert!(!texture.is_storage);
}

#[test]
fn texture_view_without_data_keeps_the_binding() {
    let texture = Texture::new(Access::Write, true);
    assert_eq!(texture.get_view(None), texture);
}

#[test]
fn texture_view_with_data_takes_all_three() {
    let texture = Texture::new(Access::Write, true);
    let view = texture.get_view(Some((Access::Read, Dimension::D3, false)));
    assert_eq!(
        view,
        Texture { access: Access::Read, dimension: Dimension::D3, is_storage: false }
    );
    // the binding asked is untouched
    assert_eq!(texture, Texture::new(Access::Write, true));
}

#[test]
fn storage_texture_layout_carries_access_and_rank() {
    let texture = Texture { access: Access::Read, dimension: Dimension::D1, is_storage: true };
    assert_eq!(
        texture.get_layout(),
        BindingKind::StorageTexture { access: Access::Read, view_dimension: Dimension::D1 }
    );
}

#[test]
fn sampled_texture_layout_carries_rank_only() {
    let texture = Texture::new(Access::Both, false);
    assert_eq!(
        texture.get_layout(),
        BindingKind::SampledTexture { view_dimension: Dimension::D2 }
    );
}

#[test]
fn buffer_binding_without_data_keeps_access() {
    let buffer = Buffer::new(Access::Both);
    assert_eq!(buffer.get_binding(None), buffer);
}

#[test]
fn buffer_binding_with_data_takes_access() {
    let buffer = Buffer::new(Access::Both);
    assert_eq!(buffer.get_binding(Some((Access::Read,))).access, Access::Read);
    assert_eq!(buffer.access, Access::Both);
}

#[test]
fn buffer_layout_is_read_only_for_read_access_alone() {
    assert_eq!(
        Buffer::new(Access::Read).get_layout(),
        BindingKind::StorageBuffer { read_only: true }
    );
    assert_eq!(
        Buffer::new(Access::Write).get_layout(),
        BindingKind::StorageBuffer { read_only: false }
    );
    assert_eq!(
        Buffer::new(Access::Both).get_layout(),
        BindingKind::StorageBuffer { read_only: false }
    );
}

#[test]
fn access_as_the_graphics_interface_names_it() {
    assert_eq!(Access::Write.to_wgpu(), wgpu::StorageTextureAccess::WriteOnly);
    assert_eq!(Access::Read.to_wgpu(), wgpu::StorageTextureAccess::ReadOnly);
    assert_eq!(Access::Both.to_wgpu(), wgpu::StorageTextureAccess::ReadWrite);
}

#[test]
fn rank_as_the_graphics_interface_names_it_for_a_texture() {
    assert_eq!(Dimension::D1.to_texture(), wgpu::TextureDimension::D1);
    assert_eq!(Dimension::D2.to_texture(), wgpu::TextureDimension::D2);
    assert_eq!(Dimension::D3.to_texture(), wgpu::TextureDimension::D3);
}

#[test]
fn rank_as_the_graphics_interface_names_it_for_a_view() {
    assert_eq!(Dimension::D1.to_view(), wgpu::TextureViewDimension::D1);
    assert_eq!(Dimension::D2.to_view(), wgpu::TextureViewDimension::D2);
    assert_eq!(Dimension::D3.to_view(), wgpu::TextureViewDimension::D3);
}

#[test]
fn a_view_rank_fits_the_texture_rank() {
    for dimension in [Dimension::D1, Dimension::D2, Dimension::D3] {
        assert_eq!(dimension.to_view().compatible_texture_dimension(), dimension.to_texture());
    }
}

#[test]
fn stage_as_the_graphics_interface_names_it() {
    assert_eq!(Visibility::VERTEX.to_wgpu(), wgpu::ShaderStages::VERTEX);
    assert_eq!(Visibility::FRAGMENT.to_wgpu(), wgpu::ShaderStages::FRAGMENT);
    assert_eq!(Visibility::COMPUTE.to_wgpu(), wgpu::ShaderStages::COMPUTE);
}

#[test]
fn a_stage_is_a_set_of_one() {
    for visibility in [Visibility::VERTEX, Visibility::FRAGMENT, Visibility::COMPUTE] {
        let stages = visibility.to_wgpu();
        assert_eq!(stages.bits().count_ones(), 1);
        assert!(!stages.is_empty());
        assert_ne!(stages, wgpu::ShaderStages::NONE);
    }
    assert_ne!(Visibility::VERTEX.to_wgpu(), Visibility::FRAGMENT.to_wgpu());
    assert_ne!(Visibility::VERTEX.to_wgpu(), Visibility::COMPUTE.to_wgpu());
    assert_ne!(Visibility::FRAGMENT.to_wgpu(), Visibility::COMPUTE.to_wgpu());
}
