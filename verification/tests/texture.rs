use std::io::Cursor;
use vanguard::texture::{checked_texture_upload, load_rgba8_texture, texture_upload, Rgba8Image, TextureLoadError};

fn png_bytes(width: u32, height: u32) -> (Vec<u8>, Vec<u8>) {
    let mut img = image::RgbaImage::new(width, height);
    for (x, y, p) in img.enumerate_pixels_mut() {
        *p = image::Rgba([x as u8, y as u8, (x + y) as u8, 255]);
    }
    let raw = img.clone().into_raw();
    let mut out = Cursor::new(Vec::new());
    img.write_to(&mut out, image::ImageFormat::Png).unwrap();
    (out.into_inner(), raw)
}

#[test]
fn decodes_png_into_upload_layout() {
    let (png, raw) = png_bytes(3, 2);
    let upload = load_rgba8_texture(&png).unwrap();
    assert_eq!(upload.width, 3);
    assert_eq!(upload.height, 2);
    assert_eq!(upload.bytes_per_row, 12);
    assert_eq!(upload.rows_per_image, 2);
    assert_eq!(upload.pixels, raw);
    assert_ne!(upload.pixels, png);
    assert_eq!(upload.pixels.len(), (upload.bytes_per_row * upload.rows_per_image) as usize);
}

#[test]
fn rejects_bytes_that_are_no_image() {
    match load_rgba8_texture(&[0u8, 1, 2, 3, 4, 5, 6, 7]) {
        Err(TextureLoadError::Decode(_)) => {}
        _ => panic!("expected a decode error"),
    }
    assert!(matches!(load_rgba8_texture(&[]), Err(TextureLoadError::Decode(_))));
}

#[test]
fn upload_of_decoded_image() {
    let upload = texture_upload(Rgba8Image { width: 2, height: 5, pixels: vec![7; 40] });
    assert_eq!((upload.width, upload.height, upload.bytes_per_row, upload.rows_per_image), (2, 5, 8, 5));
    assert_eq!(upload.pixels, vec![7; 40]);
}

#[test]
fn rejects_an_image_that_is_not_png() {
    // a minimal BMP header is no PNG
    let bmp: Vec<u8> = vec![b'B', b'M', 0x3a, 0, 0, 0, 0, 0, 0, 0, 0x36, 0, 0, 0];
    assert!(matches!(load_rgba8_texture(&bmp), Err(TextureLoadError::Decode(_))));
}

#[test]
fn checked_upload_refuses_rows_wider_than_u32() {
    let wide = Rgba8Image { width: u32::MAX / 4 + 1, height: 0, pixels: vec![] };
    assert!(matches!(checked_texture_upload(wide), Err(TextureLoadError::RowTooWide)));
    let widest = Rgba8Image { width: u32::MAX / 4, height: 0, pixels: vec![] };
    let upload = checked_texture_upload(widest).unwrap();
    assert_eq!(upload.bytes_per_row, u32::MAX - 3);
    let small = checked_texture_upload(Rgba8Image { width: 1, height: 2, pixels: vec![1, 2, 3, 4, 5, 6, 7, 8] }).unwrap();
    assert_eq!((small.width, small.height, small.bytes_per_row, small.rows_per_image), (1, 2, 4, 2));
    assert_eq!(small.pixels, vec![1, 2, 3, 4, 5, 6, 7, 8]);
}
