use rusted_pixels::codec::{CodecFailure, ColorType, RawFrame};
use rusted_pixels::color::{Color, ColorIter};
use rusted_pixels::image_buffer::{ImageBuffer, LoadImageError, SaveImageError};

#[test]
fn new_image_is_transparent_black() {
    let image = ImageBuffer::new(3, 2);
    assert_eq!(image.width, 3);
    assert_eq!(image.height, 2);
    assert_eq!(image.buffer.len(), 6);
    for color in &image.buffer {
        assert_eq!(*color, Color::RGBA(0, 0, 0, 0));
    }
}

#[test]
fn color_iter_walks_three_or_four_channels() {
    let rgb = Color::RGB(1, 2, 3);
    let mut it = ColorIter::new(&rgb);
    assert_eq!(it.next(), Some(1));
    assert_eq!(it.next(), Some(2));
    assert_eq!(it.next(), Some(3));
    assert_eq!(it.next(), None);
    assert_eq!(it.next(), None);
    let rgba = Color::RGBA(4, 5, 6, 7);
    let mut it = ColorIter::new(&rgba);
    assert_eq!(it.next(), Some(4));
    assert_eq!(it.next(), Some(5));
    assert_eq!(it.next(), Some(6));
    assert_eq!(it.next(), Some(7));
    assert_eq!(it.next(), None);
}

#[test]
fn get_and_set_a_point() {
    let mut image = ImageBuffer::new(4, 3);
    *image.get_mut_ref(1, 2) = Color::RGB(9, 8, 7);
    assert_eq!(image.get_point(1, 2), Color::RGB(9, 8, 7));
    assert_eq!(image.buffer[2 * 4 + 1], Color::RGB(9, 8, 7));
    assert_eq!(image.get_point(2, 1), Color::RGBA(0, 0, 0, 0));
}

#[test]
fn frame_of_three_channels_becomes_rgb_pixels() {
    let frame = RawFrame {
        width: 2,
        height: 1,
        color_type: ColorType::Rgb,
        data: vec![1, 2, 3, 4, 5, 6],
    };
    let image = ImageBuffer::from_frame(frame).unwrap();
    assert_eq!(image.width, 2);
    assert_eq!(image.height, 1);
    assert_eq!(image.buffer, vec![Color::RGB(1, 2, 3), Color::RGB(4, 5, 6)]);
}

#[test]
fn frame_of_four_channels_becomes_rgba_pixels() {
    let frame = RawFrame {
        width: 1,
        height: 2,
        color_type: ColorType::Rgba,
        data: vec![1, 2, 3, 4, 5, 6, 7, 8],
    };
    let image = ImageBuffer::from_frame(frame).unwrap();
    assert_eq!(image.buffer, vec![Color::RGBA(1, 2, 3, 4), Color::RGBA(5, 6, 7, 8)]);
}

#[test]
fn frame_with_wrong_sample_count_is_refused() {
    let frame = RawFrame {
        width: 2,
        height: 2,
        color_type: ColorType::Rgb,
        data: vec![0; 9],
    };
    assert_eq!(
        ImageBuffer::from_frame(frame).unwrap_err(),
        LoadImageError::DataAndColorTypeMismatch(ColorType::Rgb)
    );
    let frame = RawFrame {
        width: 2,
        height: 2,
        color_type: ColorType::Rgba,
        data: vec![0; 12],
    };
    assert_eq!(
        ImageBuffer::from_frame(frame).unwrap_err(),
        LoadImageError::DataAndColorTypeMismatch(ColorType::Rgba)
    );
}

#[test]
fn grey_and_indexed_frames_are_refused() {
    for color_type in [ColorType::Grayscale, ColorType::Indexed, ColorType::GrayscaleAlpha] {
        let frame = RawFrame { width: 1, height: 1, color_type, data: vec![0] };
        assert_eq!(
            ImageBuffer::from_frame(frame).unwrap_err(),
            LoadImageError::UnsupportedColorType(color_type)
        );
    }
}

#[test]
fn rgb_bytes_drop_alpha() {
    let image = ImageBuffer {
        width: 2,
        height: 1,
        buffer: vec![Color::RGBA(1, 2, 3, 200), Color::RGB(4, 5, 6)],
    };
    assert_eq!(image.rgb_bytes(), vec![1, 2, 3, 4, 5, 6]);
}

#[test]
fn save_then_load_keeps_rgb_channels() {
    let mut image = ImageBuffer::new(5, 3);
    for y in 0..3 {
        for x in 0..5 {
            *image.get_mut_ref(x, y) = if (x + y) % 2 == 0 {
                Color::RGB((x * 40) as u8, (y * 80) as u8, 17)
            } else {
                Color::RGBA(255, (x * 7) as u8, (y * 3) as u8, 99)
            };
        }
    }
    let file = image.save_png_image().unwrap();
    assert_eq!(&file[..8], &[137, 80, 78, 71, 13, 10, 26, 10]);
    let back = ImageBuffer::load_png_image(&file).unwrap();
    assert_eq!(back.width, 5);
    assert_eq!(back.height, 3);
    for y in 0..3 {
        for x in 0..5 {
            let (r, g, b) = match image.get_point(x, y) {
                Color::RGB(r, g, b) => (r, g, b),
                Color::RGBA(r, g, b, _) => (r, g, b),
            };
            assert_eq!(back.get_point(x, y), Color::RGB(r, g, b));
        }
    }
}

#[test]
fn loading_bytes_that_are_no_png_fails_in_the_decoder() {
    let r = ImageBuffer::load_png_image(b"this is not a png file");
    assert!(matches!(r, Err(LoadImageError::Decoding(_))));
    let r = ImageBuffer::load_png_image(&[]);
    assert!(matches!(r, Err(LoadImageError::Decoding(_))));
}

#[test]
fn saving_an_empty_image_fails_in_the_encoder() {
    let image = ImageBuffer::new(0, 4);
    assert_eq!(
        image.save_png_image().unwrap_err(),
        SaveImageError::Encoding(CodecFailure::Format)
    );
}

#[test]
fn an_image_wider_than_the_encoder_can_be_told_is_refused() {
    let image = ImageBuffer { width: usize::MAX, height: 0, buffer: vec![] };
    if usize::MAX as u128 > u32::MAX as u128 {
        assert_eq!(image.save_png_image().unwrap_err(), SaveImageError::TooLarge);
    }
    let image = ImageBuffer { width: 0, height: usize::MAX, buffer: vec![] };
    if usize::MAX as u128 > u32::MAX as u128 {
        assert_eq!(image.save_png_image().unwrap_err(), SaveImageError::TooLarge);
    }
}

#[test]
fn an_image_that_is_not_well_formed_is_not_saved() {
    let image = ImageBuffer { width: 2, height: 2, buffer: vec![Color::RGB(0, 0, 0); 3] };
    assert_eq!(image.save_png_image().unwrap_err(), SaveImageError::Malformed);
    let image = ImageBuffer { width: u32::MAX as usize, height: u32::MAX as usize, buffer: vec![] };
    assert_eq!(image.save_png_image().unwrap_err(), SaveImageError::Malformed);
    let image = ImageBuffer { width: 0, height: 0, buffer: vec![Color::RGB(0, 0, 0)] };
    assert_eq!(image.save_png_image().unwrap_err(), SaveImageError::Malformed);
    let image = ImageBuffer { width: usize::MAX, height: 2, buffer: vec![] };
    assert_eq!(image.save_png_image().unwrap_err(), SaveImageError::Malformed);
}

#[test]
fn a_well_formed_image_with_both_sides_is_saved() {
    for (width, height) in [(1, 1), (1, 7), (7, 1), (3, 5), (64, 32)] {
        let image = ImageBuffer::new(width, height);
        let file = image.save_png_image().unwrap();
        let back = ImageBuffer::load_png_image(&file).unwrap();
        assert_eq!((back.width, back.height), (width, height));
        assert_eq!(back.buffer, vec![Color::RGB(0, 0, 0); width * height]);
    }
}

#[test]
fn an_image_without_a_side_is_given_up_by_the_encoder() {
    for (width, height) in [(0, 0), (0, 3), (3, 0)] {
        let image = ImageBuffer::new(width, height);
        assert_eq!(
            image.save_png_image().unwrap_err(),
            SaveImageError::Encoding(CodecFailure::Format)
        );
    }
}

#[test]
fn an_image_tells_whether_it_is_well_formed() {
    assert!(ImageBuffer::new(3, 2).is_well_formed());
    assert!(ImageBuffer::new(0, 7).is_well_formed());
    let short = ImageBuffer { width: 2, height: 2, buffer: vec![Color::RGB(0, 0, 0); 3] };
    assert!(!short.is_well_formed());
    let long = ImageBuffer { width: 2, height: 2, buffer: vec![Color::RGB(0, 0, 0); 5] };
    assert!(!long.is_well_formed());
    let huge = ImageBuffer { width: usize::MAX, height: usize::MAX, buffer: vec![] };
    assert!(!huge.is_well_formed());
}

#[test]
fn load_errors_say_what_went_wrong() {
    assert_eq!(
        LoadImageError::Decoding(CodecFailure::Format).description(),
        "The given data could not be decoded as a PNG"
    );
    assert_eq!(
        LoadImageError::DataAndColorTypeMismatch(ColorType::Rgb).description(),
        "The given PNG data does not align correctly to the color type"
    );
    assert_eq!(
        LoadImageError::UnsupportedColorType(ColorType::Indexed).description(),
        "The color type in the PNG is not supported"
    );
}

fn crc32(bytes: &[u8]) -> u32 {
    let mut crc: u32 = 0xffff_ffff;
    for byte in bytes {
        crc ^= *byte as u32;
        for _ in 0..8 {
            crc = if crc & 1 == 1 { (crc >> 1) ^ 0xedb8_8320 } else { crc >> 1 };
        }
    }
    !crc
}

fn chunk(name: &[u8; 4], data: &[u8]) -> Vec<u8> {
    let mut out = Vec::new();
    out.extend_from_slice(&(data.len() as u32).to_be_bytes());
    let mut body = name.to_vec();
    body.extend_from_slice(data);
    out.extend_from_slice(&body);
    out.extend_from_slice(&crc32(&body).to_be_bytes());
    out
}

fn header(width: u32, height: u32, bit_depth: u8, color_type: u8) -> Vec<u8> {
    let mut file = vec![137, 80, 78, 71, 13, 10, 26, 10];
    let mut ihdr = Vec::new();
    ihdr.extend_from_slice(&width.to_be_bytes());
    ihdr.extend_from_slice(&height.to_be_bytes());
    ihdr.extend_from_slice(&[bit_depth, color_type, 0, 0, 0]);
    file.extend(chunk(b"IHDR", &ihdr));
    file
}

#[test]
fn a_file_that_asks_for_too_much_is_given_up_for_its_size() {
    let file = header(0x7fff_ffff, 0x7fff_ffff, 16, 6);
    assert_eq!(
        ImageBuffer::load_png_image(&file).unwrap_err(),
        LoadImageError::Decoding(CodecFailure::LimitsExceeded)
    );
}

#[test]
fn a_file_with_a_broken_header_is_given_up_for_its_format() {
    let mut file = header(1, 1, 8, 2);
    let last = file.len() - 1;
    file[last] ^= 0xff;
    assert_eq!(
        ImageBuffer::load_png_image(&file).unwrap_err(),
        LoadImageError::Decoding(CodecFailure::Format)
    );
    let file = header(1, 1, 8, 5);
    assert_eq!(
        ImageBuffer::load_png_image(&file).unwrap_err(),
        LoadImageError::Decoding(CodecFailure::Format)
    );
}

#[test]
fn a_file_that_ends_early_is_given_up_for_its_reading() {
    let image = ImageBuffer::new(4, 4);
    let file = image.save_png_image().unwrap();
    let cut = &file[..file.len() / 2];
    assert_eq!(
        ImageBuffer::load_png_image(cut).unwrap_err(),
        LoadImageError::Decoding(CodecFailure::Io)
    );
}

#[test]
fn a_grey_file_is_read_and_then_refused() {
    let mut file = header(1, 1, 8, 0);
    file.extend(chunk(b"IDAT", &[0x78, 0x01, 0x01, 0x02, 0x00, 0xfd, 0xff, 0x00, 0x7f, 0x00, 0x81, 0x00, 0x80]));
    file.extend(chunk(b"IEND", &[]));
    assert_eq!(
        ImageBuffer::load_png_image(&file).unwrap_err(),
        LoadImageError::UnsupportedColorType(ColorType::Grayscale)
    );
}

#[test]
fn a_file_with_alpha_is_read_with_its_alpha() {
    let mut file = header(1, 1, 8, 6);
    file.extend(chunk(
        b"IDAT",
        &[0x78, 0x01, 0x01, 0x05, 0x00, 0xfa, 0xff, 0x00, 0x0a, 0x14, 0x1e, 0x28, 0x00, 0xcd, 0x00, 0x65],
    ));
    file.extend(chunk(b"IEND", &[]));
    let image = ImageBuffer::load_png_image(&file).unwrap();
    assert_eq!((image.width, image.height), (1, 1));
    assert_eq!(image.buffer, vec![Color::RGBA(10, 20, 30, 40)]);
}

#[test]
fn a_file_of_sixteen_bit_samples_has_too_many_bytes() {
    let mut file = header(1, 1, 16, 2);
    file.extend(chunk(
        b"IDAT",
        &[0x78, 0x01, 0x01, 0x07, 0x00, 0xf8, 0xff, 0x00, 0x00, 0x01, 0x00, 0x02, 0x00, 0x03, 0x00, 0x15, 0x00, 0x07],
    ));
    file.extend(chunk(b"IEND", &[]));
    assert_eq!(
        ImageBuffer::load_png_image(&file).unwrap_err(),
        LoadImageError::DataAndColorTypeMismatch(ColorType::Rgb)
    );
}

#[test]
fn a_checked_save_hands_out_the_file_that_reads_back() {
    let mut image = ImageBuffer::new(6, 4);
    for y in 0..4 {
        for x in 0..6 {
            *image.get_mut_ref(x, y) = if x % 2 == 0 {
                Color::RGB(x as u8, y as u8, 200)
            } else {
                Color::RGBA(x as u8, 100, y as u8, 50)
            };
        }
    }
    let file = image.save_png_image_checked().unwrap();
    assert_eq!(file, image.save_png_image().unwrap());
    let back = ImageBuffer::load_png_image(&file).unwrap();
    assert_eq!((back.width, back.height), (6, 4));
    for (read, written) in back.buffer.iter().zip(image.buffer.iter()) {
        assert_eq!(*read, written.without_alpha());
    }
}

#[test]
fn a_checked_save_refuses_what_a_save_refuses() {
    let image = ImageBuffer { width: 2, height: 2, buffer: vec![] };
    assert_eq!(image.save_png_image_checked().unwrap_err(), SaveImageError::Malformed);
    let image = ImageBuffer::new(0, 2);
    assert_eq!(
        image.save_png_image_checked().unwrap_err(),
        SaveImageError::Encoding(CodecFailure::Format)
    );
    let image = ImageBuffer { width: usize::MAX, height: 0, buffer: vec![] };
    if usize::MAX as u128 > u32::MAX as u128 {
        assert_eq!(image.save_png_image_checked().unwrap_err(), SaveImageError::TooLarge);
    }
}

#[test]
fn a_colour_without_alpha_keeps_its_three_channels() {
    assert_eq!(Color::RGB(1, 2, 3).without_alpha(), Color::RGB(1, 2, 3));
    assert_eq!(Color::RGBA(1, 2, 3, 4).without_alpha(), Color::RGB(1, 2, 3));
}

#[test]
fn a_frame_reads_back_as_the_image_without_alpha() {
    let image = ImageBuffer {
        width: 2,
        height: 1,
        buffer: vec![Color::RGBA(1, 2, 3, 9), Color::RGB(4, 5, 6)],
    };
    let frame = |width: u32, height: u32, color_type: ColorType, data: Vec<u8>| RawFrame {
        width,
        height,
        color_type,
        data,
    };
    assert!(image.reads_back_from(frame(2, 1, ColorType::Rgb, vec![1, 2, 3, 4, 5, 6])));
    assert!(!image.reads_back_from(frame(2, 1, ColorType::Rgb, vec![1, 2, 3, 4, 5, 7])));
    assert!(!image.reads_back_from(frame(1, 2, ColorType::Rgb, vec![1, 2, 3, 4, 5, 6])));
    assert!(!image.reads_back_from(frame(2, 1, ColorType::Rgb, vec![1, 2, 3])));
    assert!(!image.reads_back_from(frame(2, 1, ColorType::Rgba, vec![1, 2, 3, 9, 4, 5, 6, 255])));
    assert!(!image.reads_back_from(frame(2, 1, ColorType::Grayscale, vec![1, 2])));
}
