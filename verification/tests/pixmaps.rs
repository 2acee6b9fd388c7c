use gpui_tray::pixmap::{
    hicon_from_bgra32, icon_pixmaps_from_item, resize_bgra32_nearest, DecodedIcon, Pixmap,
};
use gpui_tray::TrayError;
use zbus::zvariant::Value;

fn picture(pixels: &[u8]) -> Vec<u8> {
    pixels.iter().flat_map(|p| [*p, p + 50, p + 100, 255]).collect()
}

fn pattern(width: u32, height: u32) -> DecodedIcon {
    let mut pixels = Vec::new();
    for y in 0..height {
        for x in 0..width {
            pixels.push(((y * 7 + x * 3) % 100) as u8);
        }
    }
    DecodedIcon { width, height, bgra: picture(&pixels) }
}

fn sizes(pixmaps: &[Pixmap]) -> Vec<(i32, i32)> {
    pixmaps.iter().map(|p| (p.width, p.height)).collect()
}

#[test]
fn resizing_takes_the_nearest_pixel() {
    let src = picture(&[1, 2, 3, 4]);
    let dst = resize_bgra32_nearest(&src, 2, 2, 4, 4).unwrap();
    assert_eq!(dst, picture(&[1, 1, 2, 2, 1, 1, 2, 2, 3, 3, 4, 4, 3, 3, 4, 4]));
    let src = picture(&[1, 2, 3, 4, 5, 6, 7, 8, 9]);
    let dst = resize_bgra32_nearest(&src, 3, 3, 2, 2).unwrap();
    assert_eq!(dst, picture(&[1, 2, 4, 5]));
    let dst = resize_bgra32_nearest(&picture(&[1, 2, 3, 4]), 4, 1, 2, 2).unwrap();
    assert_eq!(dst, picture(&[1, 3, 1, 3]));
}

#[test]
fn resizing_to_the_same_size_keeps_the_picture() {
    let icon = pattern(5, 3);
    assert_eq!(resize_bgra32_nearest(&icon.bgra, 5, 3, 5, 3), Ok(icon.bgra));
}

#[test]
fn resizing_rejects_empty_sizes() {
    for (sw, sh, dw, dh) in [(0, 1, 1, 1), (1, 0, 1, 1), (1, 1, 0, 1), (1, 1, 1, 0)] {
        assert_eq!(
            resize_bgra32_nearest(&[0, 0, 0, 0], sw, sh, dw, dh),
            Err(TrayError::InvalidSize)
        );
    }
}

#[test]
fn resizing_rejects_buffers_of_another_length() {
    assert_eq!(
        resize_bgra32_nearest(&[0; 15], 2, 2, 1, 1),
        Err(TrayError::PixelBufferLength { expected: 16 })
    );
    assert_eq!(
        resize_bgra32_nearest(&[], u32::MAX, u32::MAX, 1, 1),
        Err(TrayError::PixelBufferLength { expected: 73786976260478468100 })
    );
}

#[test]
fn icons_are_offered_in_the_sizes_that_they_hold() {
    let icon = pattern(32, 40);
    let expected = resize_bgra32_nearest(&icon.bgra, 32, 40, 24, 24).unwrap();
    let pixmaps = icon_pixmaps_from_item(Some(icon)).unwrap().unwrap();
    assert_eq!(sizes(&pixmaps), vec![(16, 16), (24, 24), (32, 32)]);
    assert_eq!(pixmaps[1].bytes, expected);
    let large = icon_pixmaps_from_item(Some(pattern(48, 200))).unwrap().unwrap();
    assert_eq!(sizes(&large), vec![(16, 16), (24, 24), (32, 32), (48, 48)]);
    assert_eq!(large[3].bytes.len(), 48 * 48 * 4);
    let flat = icon_pixmaps_from_item(Some(pattern(100, 20))).unwrap().unwrap();
    assert_eq!(sizes(&flat), vec![(16, 16)]);
}

#[test]
fn small_icons_are_offered_as_they_are() {
    let icon = pattern(8, 15);
    let bytes = icon.bgra.clone();
    let pixmaps = icon_pixmaps_from_item(Some(icon)).unwrap().unwrap();
    assert_eq!(sizes(&pixmaps), vec![(8, 15)]);
    assert_eq!(pixmaps[0].bytes, bytes);
}

#[test]
fn icons_without_pixels_are_rejected() {
    let icon = DecodedIcon { width: 0, height: 16, bgra: Vec::new() };
    assert!(matches!(icon_pixmaps_from_item(Some(icon)), Err(TrayError::EmptyIcon)));
    let icon = DecodedIcon { width: 16, height: 0, bgra: Vec::new() };
    assert!(matches!(icon_pixmaps_from_item(Some(icon)), Err(TrayError::EmptyIcon)));
    assert!(icon_pixmaps_from_item(None).unwrap().is_none());
}

#[test]
fn icons_with_missing_bytes_are_rejected() {
    let icon = DecodedIcon { width: 16, height: 16, bgra: vec![0; 1023] };
    assert!(matches!(
        icon_pixmaps_from_item(Some(icon)),
        Err(TrayError::PixelBufferLength { expected: 1024 })
    ));
}

#[test]
fn clones_of_pixmaps_are_the_same() {
    let pixmap = Pixmap::new(1, 2, vec![1, 2, 3, 4, 5, 6, 7, 8]);
    let clone = pixmap.clone();
    assert_eq!((clone.width, clone.height, clone.bytes), (1, 2, pixmap.bytes));
}

#[test]
fn masks_have_rows_of_whole_words() {
    let bitmaps = hicon_from_bgra32(33, 2, &[0; 264]).unwrap();
    assert_eq!(bitmaps.width, 33);
    assert_eq!(bitmaps.height, 2);
    assert_eq!(bitmaps.header_height, -2);
    assert_eq!(bitmaps.mask_len, 16);
    assert_eq!(hicon_from_bgra32(32, 3, &[0; 384]).unwrap().mask_len, 12);
}

#[test]
fn window_icons_check_their_bytes() {
    assert!(matches!(
        hicon_from_bgra32(2, 3, &[0; 23]),
        Err(TrayError::IconLengthMismatch { got: 23, expected: 24, width: 2, height: 3 })
    ));
    assert!(matches!(
        hicon_from_bgra32(u32::MAX, u32::MAX, &[]),
        Err(TrayError::IconDimensionsOverflow)
    ));
}

#[test]
fn pixmaps_travel_as_structures() {
    let value = Pixmap::new(2, 1, vec![1, 2, 3, 4, 5, 6, 7, 8]).to_value();
    let structure = match &value {
        Value::Structure(structure) => structure,
        other => panic!("{:?}", other),
    };
    assert_eq!(structure.fields().len(), 3);
    assert_eq!(structure.fields()[0], Value::I32(2));
    assert_eq!(structure.fields()[1], Value::I32(1));
    match &structure.fields()[2] {
        Value::Array(array) => {
            assert_eq!(array.inner().len(), 8);
            assert_eq!(array.inner()[7], Value::U8(8));
        }
        other => panic!("{:?}", other),
    }
    assert_eq!(value.value_signature().to_string(), "(iiay)");
}

#[test]
fn resizing_to_a_huge_size_still_names_what_is_wrong_with_the_source() {
    assert_eq!(
        resize_bgra32_nearest(&[], 0, 1, u32::MAX, u32::MAX),
        Err(TrayError::InvalidSize)
    );
    assert_eq!(
        resize_bgra32_nearest(&[0; 3], 1, 1, u32::MAX, u32::MAX),
        Err(TrayError::PixelBufferLength { expected: 4 })
    );
}
