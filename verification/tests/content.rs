use std::io::Cursor;

use gearbox::{decode_texture, texture_from_decoded, AssetContent, TextureDecodeError, TextureType, UVec2};

#[test]
fn inline_bytes_binary_returns_bytes_unchanged() {
    let bytes = AssetContent::Binary(Box::new([1, 2, 3])).inline_bytes().unwrap();
    assert_eq!(&*bytes, &[1, 2, 3]);
}

#[test]
fn inline_bytes_content_returns_utf8_bytes() {
    let bytes = AssetContent::Content("hello".to_string()).inline_bytes().unwrap();
    assert_eq!(&*bytes, b"hello");
    let bytes = AssetContent::Content("é".to_string()).inline_bytes().unwrap();
    assert_eq!(&*bytes, &[0xc3, 0xa9]);
}

#[test]
fn inline_bytes_needs_io_for_paths_and_urls() {
    assert!(AssetContent::LocalPath("a.png".to_string()).inline_bytes().is_none());
    assert!(AssetContent::Url("http://localhost/a.png".to_string()).inline_bytes().is_none());
}

#[test]
fn asset_content_clone_is_equal() {
    let c = AssetContent::Binary(Box::new([9, 8]));
    assert_eq!(c.clone(), c);
    let c = AssetContent::LocalPath("p".to_string());
    assert_eq!(c.clone(), c);
}

#[test]
fn decode_texture_gives_rgba8_pixels() {
    let mut img = image::RgbaImage::new(2, 3);
    img.put_pixel(1, 2, image::Rgba([10, 20, 30, 40]));
    let mut png = Vec::new();
    img.write_to(&mut Cursor::new(&mut png), image::ImageFormat::Png).unwrap();

    let decoded = decode_texture(&png, TextureType::PNG).unwrap();
    assert_eq!(decoded.size, UVec2::new(2, 3));
    assert_eq!(decoded.pixels.len(), 2 * 3 * 4);
    assert_eq!(&decoded.pixels[20..24], &[10, 20, 30, 40]);
}

#[test]
fn decode_texture_rejects_bytes_of_another_format() {
    let r = decode_texture(b"not a png", TextureType::PNG);
    assert!(matches!(r, Err(TextureDecodeError::Decode(_))));
}

#[test]
fn texture_from_decoded_keeps_size_and_pixels() {
    let t = texture_from_decoded(Ok((1, 2, vec![1, 2, 3, 4, 5, 6, 7, 8]))).unwrap();
    assert_eq!(t.size, UVec2::new(1, 2));
    assert_eq!(t.pixels, vec![1, 2, 3, 4, 5, 6, 7, 8]);
}

#[test]
fn texture_from_decoded_passes_the_decoder_message_on() {
    let r = texture_from_decoded(Err("bad header".to_string()));
    assert_eq!(r.err(), Some(TextureDecodeError::Decode("bad header".to_string())));
}

#[test]
fn decode_texture_reads_the_bytes_as_the_given_type() {
    let img = image::RgbaImage::new(4, 1);
    let mut png = Vec::new();
    img.write_to(&mut Cursor::new(&mut png), image::ImageFormat::Png).unwrap();
    assert!(decode_texture(&png, TextureType::PNG).is_ok());
    assert!(decode_texture(&png, TextureType::QOI).is_err());
}
