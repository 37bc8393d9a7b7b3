use std::io::Cursor;

use ssimulacra2::payload::{
    decode_payload, pixels_from_image, DecodeError, DecodedImage, Depth, Pixels, FMT_PNG, FMT_RGB16,
    FMT_RGB8,
};
use ssimulacra2::protocol::Request;

fn req(width: usize, height: usize, fmt: u8, payload: Vec<u8>) -> Request {
    Request { tag: b'R', width, height, fmt, payload }
}

fn png_bytes(img: image::DynamicImage) -> Vec<u8> {
    let mut out = Cursor::new(Vec::new());
    img.write_to(&mut out, image::ImageFormat::Png).unwrap();
    out.into_inner()
}

#[test]
fn rgb8_payload_is_kept_as_is() {
    let data: Vec<u8> = (0..12).collect();
    assert_eq!(
        decode_payload(req(2, 2, FMT_RGB8, data.clone())),
        Ok(Pixels::Rgb8 { width: 2, height: 2, data })
    );
}

#[test]
fn rgb8_payload_of_wrong_size_is_refused() {
    assert_eq!(
        decode_payload(req(3, 2, FMT_RGB8, vec![0; 17])),
        Err(DecodeError::PayloadSize { got: 17, width: 3, height: 2, depth: Depth::Eight })
    );
}

#[test]
fn rgb16_samples_are_little_endian() {
    let payload = vec![0x01, 0x02, 0xff, 0x00, 0x00, 0xff];
    assert_eq!(
        decode_payload(req(1, 1, FMT_RGB16, payload)),
        Ok(Pixels::Rgb16 { width: 1, height: 1, samples: vec![0x0201, 0x00ff, 0xff00] })
    );
}

#[test]
fn rgb16_payload_of_wrong_size_is_refused() {
    assert_eq!(
        decode_payload(req(4, 4, FMT_RGB16, vec![0; 10])),
        Err(DecodeError::PayloadSize { got: 10, width: 4, height: 4, depth: Depth::Sixteen })
    );
}

#[test]
fn huge_dimensions_do_not_overflow() {
    assert_eq!(
        decode_payload(req(usize::MAX, 2, FMT_RGB8, vec![0; 6])),
        Err(DecodeError::PayloadSize { got: 6, width: usize::MAX, height: 2, depth: Depth::Eight })
    );
    assert_eq!(
        decode_payload(req(usize::MAX / 3 + 1, 1, FMT_RGB16, vec![])),
        Err(DecodeError::PayloadSize {
            got: 0,
            width: usize::MAX / 3 + 1,
            height: 1,
            depth: Depth::Sixteen
        })
    );
}

#[test]
fn worker_accepts_rgb16_payload() {
    let src: Vec<u8> = vec![0, 1, 2, 127, 128, 200, 254, 255, 9, 10, 11, 12];
    let widen = |bytes: &[u8]| -> Vec<u8> {
        bytes.iter().flat_map(|&v| (u16::from(v) * 257).to_le_bytes()).collect()
    };
    let wide = decode_payload(req(2, 2, FMT_RGB16, widen(&src))).unwrap();
    let narrow = decode_payload(req(2, 2, FMT_RGB8, src.clone())).unwrap();
    match (wide, narrow) {
        (Pixels::Rgb16 { samples, .. }, Pixels::Rgb8 { data, .. }) => {
            assert_eq!(samples.len(), data.len());
            for (s, d) in samples.iter().zip(data.iter()) {
                assert_eq!(*s, u16::from(*d) * 257);
                assert_eq!(f32::from(*s) / 65535.0, f32::from(*d) / 255.0);
            }
        }
        other => panic!("unexpected {other:?}"),
    }
}

#[test]
fn worker_accepts_png_payload() {
    let raw: Vec<u8> = vec![10, 20, 30, 40, 50, 60, 70, 80, 90, 100, 110, 120, 130, 140, 150, 160, 170, 180];
    let img = image::RgbImage::from_raw(3, 2, raw.clone()).unwrap();
    let bytes = png_bytes(image::DynamicImage::ImageRgb8(img));
    // the header's dimensions are ignored for PNG payloads
    assert_eq!(
        decode_payload(req(0, 0, FMT_PNG, bytes)),
        Ok(Pixels::Rgb8 { width: 3, height: 2, data: raw })
    );
}

#[test]
fn png_with_alpha_is_refused() {
    let img = image::RgbaImage::from_raw(1, 1, vec![1, 2, 3, 4]).unwrap();
    let bytes = png_bytes(image::DynamicImage::ImageRgba8(img));
    assert_eq!(decode_payload(req(1, 1, FMT_PNG, bytes)), Err(DecodeError::AlphaUnsupported));
}

#[test]
fn grayscale_png_is_expanded_to_rgb() {
    let img = image::GrayImage::from_raw(2, 1, vec![5, 250]).unwrap();
    let bytes = png_bytes(image::DynamicImage::ImageLuma8(img));
    assert_eq!(
        decode_payload(req(0, 0, FMT_PNG, bytes)),
        Ok(Pixels::Rgb8 { width: 2, height: 1, data: vec![5, 5, 5, 250, 250, 250] })
    );
}

#[test]
fn garbage_png_is_refused_with_the_decoder_message() {
    match decode_payload(req(1, 1, FMT_PNG, vec![1, 2, 3, 4, 5])) {
        Err(DecodeError::Png(msg)) => assert!(!msg.is_empty()),
        other => panic!("unexpected {other:?}"),
    }
}

#[test]
fn unknown_pixel_format_is_refused() {
    assert_eq!(
        decode_payload(req(1, 1, 7, vec![0, 0, 0])),
        Err(DecodeError::UnknownFormat(7))
    );
}

#[test]
fn image_outcome_becomes_pixels() {
    assert_eq!(
        pixels_from_image(Err("bad signature".to_string())),
        Err(DecodeError::Png("bad signature".to_string()))
    );
    let img = |has_alpha| DecodedImage { has_alpha, width: 2, height: 1, rgb: vec![1, 2, 3, 4, 5, 6] };
    assert_eq!(pixels_from_image(Ok(img(true))), Err(DecodeError::AlphaUnsupported));
    assert_eq!(
        pixels_from_image(Ok(img(false))),
        Ok(Pixels::Rgb8 { width: 2, height: 1, data: vec![1, 2, 3, 4, 5, 6] })
    );
}
