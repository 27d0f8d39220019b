use ranami_wallpapers::preview::decode_thumbnail_buffer;

fn png_bytes(img: &image::RgbaImage) -> Vec<u8> {
    let mut bytes: Vec<u8> = Vec::new();
    img.write_to(&mut std::io::Cursor::new(&mut bytes), image::ImageFormat::Png).unwrap();
    bytes
}

#[test]
fn preview_pixels_are_decoded() {
    let mut img = image::RgbaImage::new(2, 1);
    img.put_pixel(0, 0, image::Rgba([1, 2, 3, 4]));
    img.put_pixel(1, 0, image::Rgba([250, 251, 252, 253]));
    let bytes = png_bytes(&img);
    let p = decode_thumbnail_buffer("C:\\c\\a.png", &bytes).expect("a PNG decodes");
    assert_eq!((p.width, p.height), (2, 1));
    assert_eq!(p.rgba, vec![1, 2, 3, 4, 250, 251, 252, 253]);
}

#[test]
fn rgb_preview_gets_opaque_alpha() {
    let img = image::RgbImage::from_pixel(1, 2, image::Rgb([9, 8, 7]));
    let mut bytes: Vec<u8> = Vec::new();
    img.write_to(&mut std::io::Cursor::new(&mut bytes), image::ImageFormat::Png).unwrap();
    let p = decode_thumbnail_buffer("C:\\c\\a.png", &bytes).expect("a PNG decodes");
    assert_eq!((p.width, p.height), (1, 2));
    assert_eq!(p.rgba, vec![9, 8, 7, 255, 9, 8, 7, 255]);
}

#[test]
fn broken_preview_is_none() {
    assert!(decode_thumbnail_buffer("a.jpg", b"not a picture").is_none());
    assert!(decode_thumbnail_buffer("a.jpg", &[]).is_none());
    let bytes = png_bytes(&image::RgbaImage::new(3, 3));
    assert!(decode_thumbnail_buffer("a.png", &bytes[..bytes.len() / 2]).is_none());
}

#[test]
fn decoder_follows_the_extension() {
    let bytes = png_bytes(&image::RgbaImage::new(2, 2));
    assert!(decode_thumbnail_buffer("C:\\c\\a.PNG", &bytes).is_some());
    // PNG bytes under a JPEG name do not decode, as when the file is opened
    assert!(decode_thumbnail_buffer("C:\\c\\a.jpg", &bytes).is_none());
    assert!(decode_thumbnail_buffer("C:\\c\\a", &bytes).is_none());
    assert!(decode_thumbnail_buffer("C:\\c\\a.", &bytes).is_none());
    assert!(decode_thumbnail_buffer("C:\\c\\a.xyz", &bytes).is_none());
}
