use entity_handle::stacking::PixelFormat;
use entity_handle::stacking::RawImage;
use entity_handle::stacking::bytes_per_pixel;
use entity_handle::stacking::tileset_to_stacked;

#[test]
fn bytes_per_pixel_knows_fixed_width_formats() {
    assert_eq!(bytes_per_pixel(&PixelFormat::R8), Some(1));
    assert_eq!(bytes_per_pixel(&PixelFormat::Rg8), Some(2));
    assert_eq!(bytes_per_pixel(&PixelFormat::Rgba8), Some(4));
    assert_eq!(bytes_per_pixel(&PixelFormat::Rgba16), Some(8));
    assert_eq!(bytes_per_pixel(&PixelFormat::Rgba32), Some(16));
    assert_eq!(bytes_per_pixel(&PixelFormat::Unsupported), None);
}

#[test]
fn stacking_reorders_a_sheet_into_layers() {
    // A 4x2 sheet of 1-byte pixels, cut into 2x2 tiles: two tiles side by side.
    let sheet = RawImage {
        width: 4,
        height: 2,
        format: PixelFormat::R8,
        data: vec![0, 1, 2, 3, 4, 5, 6, 7],
    };
    let stacked = tileset_to_stacked(&sheet, 2, 2);

    assert_eq!(stacked.width, 2);
    assert_eq!(stacked.height, 2);
    assert_eq!(stacked.layers, 2);
    assert_eq!(stacked.format, PixelFormat::R8);
    // Layer 0 is the left tile's rows, layer 1 the right tile's rows.
    assert_eq!(stacked.data, vec![0, 1, 4, 5, 2, 3, 6, 7]);
    // The stored stride is the sheet's tile-row count.
    assert_eq!(stacked.original_tile_width, 1);
    assert_eq!(stacked.offste_to_idx(3, 5), (3, 5));
}

#[test]
fn stacking_respects_the_pixel_width() {
    // A 2x2 sheet of 2-byte pixels, cut into 1x1 tiles: four layers in
    // row-major order, two bytes each.
    let sheet = RawImage {
        width: 2,
        height: 2,
        format: PixelFormat::Rg8,
        data: vec![10, 11, 20, 21, 30, 31, 40, 41],
    };
    let stacked = tileset_to_stacked(&sheet, 1, 1);

    assert_eq!(stacked.layers, 4);
    assert_eq!(stacked.data, vec![10, 11, 20, 21, 30, 31, 40, 41]);
    assert_eq!(stacked.original_tile_width, 2);
    assert_eq!(stacked.offste_to_idx(3, 5), (1, 5));
}
