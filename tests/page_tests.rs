use pdf2key::job::ConversionError;
use pdf2key::page::RenderedImage;

#[test]
fn image_needs_four_bytes_per_pixel() {
    assert!(RenderedImage::new(0, 2, 3, vec![0u8; 24]).is_some());
    assert!(RenderedImage::new(0, 2, 3, vec![0u8; 23]).is_none());
    assert!(RenderedImage::new(0, 2, 3, vec![0u8; 18]).is_none());
}

#[test]
fn image_keeps_its_page() {
    let img = RenderedImage::new(5, 2, 1, vec![1u8; 8]).unwrap();
    assert_eq!(img.ordinal(), 5);
    assert_eq!(img.width(), 2);
    assert_eq!(img.height(), 1);
}

#[test]
fn encoding_gives_a_png_file() {
    let pixels: Vec<u8> = vec![255, 0, 0, 255, 0, 255, 0, 255, 0, 0, 255, 255, 9, 9, 9, 128];
    let img = RenderedImage::new(0, 2, 2, pixels.clone()).unwrap();
    let bytes = img.encode_png().unwrap();
    assert_eq!(&bytes[..8], &[0x89, b'P', b'N', b'G', 0x0d, 0x0a, 0x1a, 0x0a]);
    assert_ne!(bytes, pixels);
    let decoded = image::load_from_memory_with_format(&bytes, image::ImageFormat::Png).unwrap().into_rgba8();
    assert_eq!(decoded.width(), 2);
    assert_eq!(decoded.height(), 2);
    assert_eq!(decoded.into_raw(), pixels);
}

#[test]
fn encoding_an_empty_image_fails_as_io() {
    let empty = ConversionError::Io("Imagem vazia: largura ou altura zero".to_string());
    let img = RenderedImage::new(2, 0, 0, vec![]).unwrap();
    assert_eq!(img.encode_png(), Err(empty));
    let no_width = RenderedImage::new(2, 0, 5, vec![]).unwrap();
    assert!(no_width.encode_png().is_err());
    let no_height = RenderedImage::new(2, 7, 0, vec![]).unwrap();
    assert!(no_height.encode_png().is_err());
}

#[test]
fn encoding_a_single_pixel_succeeds() {
    let img = RenderedImage::new(0, 1, 1, vec![1, 2, 3, 4]).unwrap();
    assert!(img.encode_png().is_ok());
}
