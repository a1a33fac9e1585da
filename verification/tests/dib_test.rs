use clipboard_rs::dib::{decode, encode, row_stride};
use clipboard_rs::error::ClipboardError;
use clipboard_rs::image_data::{ImageData, PixelFormat};

fn header(width: u8, height: u8, bits: u8, size: u8) -> Vec<u8> {
    let mut h = vec![
        40, 0, 0, 0, width, 0, 0, 0, height, 0, 0, 0, 1, 0, bits, 0, 0, 0, 0, 0, size, 0, 0, 0,
    ];
    h.extend_from_slice(&[0u8; 16]);
    h
}

#[test]
fn rgb_bitmap_is_bottom_up_padded_and_blue_first() {
    let pixels: Vec<u8> = (1..=12).collect();
    let image = ImageData::from_raw(2, 2, PixelFormat::Rgb8, pixels).unwrap();
    let mut expected = header(2, 2, 24, 16);
    expected.extend_from_slice(&[9, 8, 7, 12, 11, 10, 0, 0, 3, 2, 1, 6, 5, 4, 0, 0]);
    assert_eq!(encode(&image).unwrap(), expected);
    assert_eq!(image.to_bitmap().unwrap(), expected);
}

#[test]
fn rgba_bitmap_keeps_alpha_in_place() {
    let pixels: Vec<u8> = vec![10, 20, 30, 40, 50, 60, 70, 80];
    let image = ImageData::from_raw(1, 2, PixelFormat::Rgba8, pixels).unwrap();
    let mut expected = header(1, 2, 32, 8);
    expected.extend_from_slice(&[70, 60, 50, 80, 30, 20, 10, 40]);
    assert_eq!(encode(&image).unwrap(), expected);
}

#[test]
fn stride_is_rounded_up_to_four() {
    assert_eq!(row_stride(1, PixelFormat::Rgb8), 4);
    assert_eq!(row_stride(2, PixelFormat::Rgb8), 8);
    assert_eq!(row_stride(3, PixelFormat::Rgb8), 12);
    assert_eq!(row_stride(4, PixelFormat::Rgb8), 12);
    assert_eq!(row_stride(5, PixelFormat::Rgb8), 16);
    assert_eq!(row_stride(0, PixelFormat::Rgb8), 0);
    assert_eq!(row_stride(3, PixelFormat::Rgba8), 12);
    assert_eq!(row_stride(u32::MAX, PixelFormat::Rgba8), 17179869180);
}

#[test]
fn decode_undoes_encode() {
    for &(w, h, format, ch) in &[
        (1u32, 1u32, PixelFormat::Rgb8, 3usize),
        (3, 2, PixelFormat::Rgb8, 3),
        (5, 4, PixelFormat::Rgb8, 3),
        (4, 3, PixelFormat::Rgba8, 4),
        (7, 1, PixelFormat::Rgba8, 4),
    ] {
        let n = (w * h) as usize * ch;
        let pixels: Vec<u8> = (0..n).map(|i| (i * 7 + 3) as u8).collect();
        let image = ImageData::from_raw(w, h, format, pixels.clone()).unwrap();
        let bytes = encode(&image).unwrap();
        assert_eq!(bytes.len() as u64, 40 + row_stride(w, format) * h as u64);
        let back = decode(&bytes).unwrap();
        assert_eq!(back.width(), w);
        assert_eq!(back.height(), h);
        assert_eq!(back.format(), format);
        assert_eq!(back.get_bytes(), &pixels);
        let again = ImageData::from_bitmap(&bytes).unwrap();
        assert_eq!(again.get_bytes(), &pixels);
    }
}

#[test]
fn decode_reads_a_known_bitmap() {
    let mut bytes = header(2, 1, 24, 8);
    bytes.extend_from_slice(&[3, 2, 1, 6, 5, 4, 99, 98]);
    let image = decode(&bytes).unwrap();
    assert_eq!(image.width(), 2);
    assert_eq!(image.height(), 1);
    assert_eq!(image.format(), PixelFormat::Rgb8);
    assert_eq!(image.get_bytes(), &vec![1, 2, 3, 4, 5, 6]);
}

#[test]
fn decode_accepts_trailing_bytes_and_ignores_the_size_field() {
    let mut bytes = header(1, 1, 32, 0);
    bytes.extend_from_slice(&[3, 2, 1, 4, 0, 0, 0]);
    let image = decode(&bytes).unwrap();
    assert_eq!(image.get_bytes(), &vec![1, 2, 3, 4]);
}

#[test]
fn empty_image_has_no_bitmap() {
    let image = ImageData::from_raw(0, 5, PixelFormat::Rgb8, Vec::new()).unwrap();
    assert!(matches!(encode(&image), Err(ClipboardError::CreateDibFailed)));
    let image = ImageData::from_raw(5, 0, PixelFormat::Rgba8, Vec::new()).unwrap();
    assert!(matches!(encode(&image), Err(ClipboardError::CreateDibFailed)));
    assert!(matches!(image.to_bitmap(), Err(ClipboardError::CreateDibFailed)));
}

#[test]
fn malformed_bitmaps_are_refused() {
    let good = {
        let mut b = header(1, 1, 24, 4);
        b.extend_from_slice(&[3, 2, 1, 0]);
        b
    };
    assert!(decode(&good).is_ok());
    assert!(matches!(decode(&[]), Err(ClipboardError::InvalidBitmapData)));
    assert!(matches!(decode(&good[..39]), Err(ClipboardError::InvalidBitmapData)));
    assert!(matches!(decode(&good[..43]), Err(ClipboardError::InvalidBitmapData)));
    let mut bad = good.clone();
    bad[0] = 12;
    assert!(matches!(decode(&bad), Err(ClipboardError::InvalidBitmapData)));
    let mut bad = good.clone();
    bad[4] = 0;
    assert!(matches!(decode(&bad), Err(ClipboardError::InvalidBitmapData)));
    let mut bad = good.clone();
    bad[8] = 0;
    assert!(matches!(decode(&bad), Err(ClipboardError::InvalidBitmapData)));
    let mut bad = good.clone();
    bad[11] = 0xff;
    assert!(matches!(decode(&bad), Err(ClipboardError::InvalidBitmapData)));
    let mut bad = good.clone();
    bad[12] = 2;
    assert!(matches!(decode(&bad), Err(ClipboardError::InvalidBitmapData)));
    let mut bad = good.clone();
    bad[14] = 8;
    assert!(matches!(decode(&bad), Err(ClipboardError::InvalidBitmapData)));
    let mut bad = good.clone();
    bad[16] = 1;
    assert!(matches!(decode(&bad), Err(ClipboardError::InvalidBitmapData)));
    assert!(matches!(
        ImageData::from_bitmap(&[0u8; 40]),
        Err(ClipboardError::InvalidBitmapData)
    ));
}
