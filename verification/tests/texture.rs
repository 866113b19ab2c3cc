use skybox_cubemap::ConversionError;
use skybox_cubemap::Texture;
use skybox_cubemap::TextureViewDimension;

#[test]
fn new_flat_is_flat() {
    let t = Texture::new_flat(8, 48, vec![7u8; 16]);
    assert_eq!(t.width, 8);
    assert_eq!(t.height, 48);
    assert_eq!(t.layers, 1);
    assert_eq!(t.view_dimension, None);
    assert_eq!(t.data, vec![7u8; 16]);
}

#[test]
fn reinterpret_cuts_stack_into_square_layers() {
    let mut t = Texture::new_flat(4, 24, vec![3u8; 96]);
    let r = t.reinterpret_stacked_2d_as_array(6);
    assert_eq!(r, Ok(()));
    assert_eq!(t.layers, 6);
    assert_eq!(t.width, 4);
    assert_eq!(t.height, 4);
    // Pure reinterpretation: the byte buffer is bit-identical.
    assert_eq!(t.data, vec![3u8; 96]);
    // The view is set separately by the scheduler.
    assert_eq!(t.view_dimension, None);
}

#[test]
fn reinterpret_rejects_malformed_height() {
    let mut t = Texture::new_flat(4, 23, vec![0u8; 92]);
    let r = t.reinterpret_stacked_2d_as_array(6);
    assert_eq!(r, Err(ConversionError::InvalidDimensions));
    // The refused texture is untouched.
    assert_eq!(t.width, 4);
    assert_eq!(t.height, 23);
    assert_eq!(t.layers, 1);
    assert_eq!(t.view_dimension, None);
    assert_eq!(t.data, vec![0u8; 92]);
}

#[test]
fn reinterpret_rejects_zero_layers() {
    let mut t = Texture::new_flat(4, 0, Vec::new());
    let r = t.reinterpret_stacked_2d_as_array(0);
    assert_eq!(r, Err(ConversionError::InvalidDimensions));
    assert_eq!(t.layers, 1);
}

#[test]
fn repeated_reinterpret_is_refused_and_bit_identical() {
    let mut t = Texture::new_flat(4, 24, vec![9u8; 96]);
    assert_eq!(t.reinterpret_stacked_2d_as_array(6), Ok(()));
    t.set_view_dimension(TextureViewDimension::Cube);
    let snapshot = Texture {
        width: t.width,
        height: t.height,
        layers: t.layers,
        view_dimension: t.view_dimension,
        data: t.data.clone(),
    };
    let r = t.reinterpret_stacked_2d_as_array(6);
    assert_eq!(r, Err(ConversionError::AlreadyConverted));
    assert_eq!(t, snapshot);
}

#[test]
fn reinterpret_refuses_pre_layered_texture() {
    let mut t = Texture {
        width: 4,
        height: 4,
        layers: 3,
        view_dimension: None,
        data: vec![1u8; 48],
    };
    let r = t.reinterpret_stacked_2d_as_array(6);
    assert_eq!(r, Err(ConversionError::AlreadyConverted));
    assert_eq!(t.layers, 3);
}

#[test]
fn set_view_dimension_records_the_view() {
    let mut t = Texture::new_flat(2, 12, vec![0u8; 24]);
    t.set_view_dimension(TextureViewDimension::Cube);
    assert_eq!(t.view_dimension, Some(TextureViewDimension::Cube));
    t.set_view_dimension(TextureViewDimension::D2);
    assert_eq!(t.view_dimension, Some(TextureViewDimension::D2));
}

#[test]
fn reinterpret_accepts_other_layer_counts() {
    let mut t = Texture::new_flat(5, 10, vec![2u8; 100]);
    assert_eq!(t.reinterpret_stacked_2d_as_array(2), Ok(()));
    assert_eq!(t.layers, 2);
    assert_eq!(t.height, 5);
}
