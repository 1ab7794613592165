use cascii::convert::{
    convert_image_to_ascii, encode_outputs, image_to_ascii_string, image_to_ascii_with_colors,
    map_image, OutputMode,
};
use cascii::error::{ConfigFault, ConvertError};
use cascii::frame::AsciiFrameData;
use cascii::luminance::{char_for, luminance, validate_ramp, CharacterRamp};
use cascii::raster::{can_resample, decode_image, target_dimensions, FontRatio, RasterImage};

fn ramp(bytes: &[u8]) -> CharacterRamp {
    CharacterRamp::new(bytes.to_vec()).unwrap()
}

fn ratio(numerator: u32, denominator: u32) -> FontRatio {
    FontRatio::new(numerator, denominator).unwrap()
}

fn png_bytes(width: u32, height: u32, pixels: Vec<u8>) -> Vec<u8> {
    let img = image::RgbImage::from_raw(width, height, pixels).unwrap();
    let mut out = std::io::Cursor::new(Vec::new());
    image::DynamicImage::ImageRgb8(img)
        .write_to(&mut out, image::ImageFormat::Png)
        .unwrap();
    out.into_inner()
}

#[test]
fn dark_pixels_become_spaces() {
    let chars = b"abcdefghij";
    for threshold in 0u8..=255 {
        for luma in 0u8..threshold {
            assert_eq!(char_for(luma, threshold, chars), b' ');
        }
    }
}

#[test]
fn brighter_pixels_never_get_earlier_characters() {
    let chars = b"abcdefghijklmnopqrstuvwxyz";
    for threshold in 0u8..=255 {
        let mut last = 0usize;
        for luma in threshold..=255 {
            let c = char_for(luma, threshold, chars);
            let index = chars.iter().position(|b| *b == c).unwrap();
            assert!(index >= last);
            last = index;
        }
    }
}

#[test]
fn ramp_positions_follow_the_formula() {
    let chars = b" .:-=+*#%@";
    assert_eq!(char_for(255, 20, chars), b'@');
    assert_eq!(char_for(20, 20, chars), b' ');
    assert_eq!(char_for(137, 20, chars), b'=');
    assert_eq!(char_for(46, 20, chars), b' ');
    assert_eq!(char_for(47, 20, chars), b'.');
    assert_eq!(char_for(19, 20, chars), b' ');
    assert_eq!(char_for(255, 255, chars), b' ');
    assert_eq!(char_for(0, 0, b"xyz"), b'x');
    assert_eq!(char_for(255, 0, b"xyz"), b'z');
    assert_eq!(char_for(128, 0, b"xyz"), b'y');
    assert_eq!(char_for(200, 10, b"q"), b'q');
}

#[test]
fn luminance_weighs_the_channels() {
    assert_eq!(luminance(255, 0, 0), 54);
    assert_eq!(luminance(0, 255, 0), 182);
    assert_eq!(luminance(0, 0, 255), 18);
    assert_eq!(luminance(255, 255, 255), 255);
    assert_eq!(luminance(0, 0, 0), 0);
    assert_eq!(luminance(128, 128, 128), 128);
    assert_eq!(luminance(10, 20, 30), 18);
}

#[test]
fn empty_ramp_is_refused() {
    assert_eq!(validate_ramp(b""), Err(ConvertError::Config(ConfigFault::EmptyRamp)));
    assert!(CharacterRamp::new(Vec::new()).is_err());
}

#[test]
fn non_ascii_ramp_is_refused() {
    assert_eq!(
        validate_ramp(&[65, 200, 66, 201]),
        Err(ConvertError::Config(ConfigFault::NonAsciiRamp { index: 1 }))
    );
    assert_eq!(validate_ramp(b" .#"), Ok(()));
    assert_eq!(ramp(b" .#").as_bytes(), b" .#");
}

#[test]
fn raw_pictures_are_checked() {
    assert!(RasterImage::from_raw(2, 2, vec![0; 12]).is_ok());
    assert!(matches!(
        RasterImage::from_raw(2, 2, vec![0; 11]),
        Err(ConvertError::Decode { .. })
    ));
    assert!(matches!(
        RasterImage::from_raw(0, 2, Vec::new()),
        Err(ConvertError::Decode { .. })
    ));
    let img = RasterImage::from_raw(3, 1, vec![1, 2, 3, 4, 5, 6, 7, 8, 9]).unwrap();
    assert_eq!(img.width(), 3);
    assert_eq!(img.height(), 1);
    assert_eq!(img.pixels(), &vec![1, 2, 3, 4, 5, 6, 7, 8, 9]);
}

#[test]
fn font_ratio_needs_a_denominator() {
    assert!(FontRatio::new(7, 0).is_none());
    let r = ratio(7, 10);
    assert_eq!(r.numerator(), 7);
    assert_eq!(r.denominator(), 10);
}

#[test]
fn grid_height_is_rounded() {
    assert_eq!(target_dimensions(640, 480, Some(100), &ratio(7, 10)), (100, 53));
    assert_eq!(target_dimensions(640, 480, Some(400), &ratio(7, 10)), (400, 210));
    assert_eq!(target_dimensions(11, 3, None, &ratio(1, 2)), (11, 2));
    assert_eq!(target_dimensions(100, 1, None, &ratio(44, 100)), (100, 1));
    assert_eq!(target_dimensions(100, 1, Some(10), &ratio(0, 1)), (10, 1));
    assert_eq!(target_dimensions(1, 1000, Some(4_000_000), &ratio(1000, 1)), (4_000_000, u32::MAX));
    assert_eq!(target_dimensions(1920, 1080, Some(80), &ratio(44, 100)), (80, 20));
}

#[test]
fn pictures_map_pixel_by_pixel() {
    let pixels = vec![0, 0, 0, 255, 255, 255, 255, 0, 0, 0, 255, 0];
    let img = RasterImage::from_raw(2, 2, pixels.clone()).unwrap();
    let frame = map_image(&img, 20, &ramp(b"abcdefghij"));
    assert_eq!(frame.width_chars, 2);
    assert_eq!(frame.height_chars, 2);
    assert_eq!(frame.ascii_text, b" j\nbg\n".to_vec());
    assert_eq!(frame.rgb_colors, pixels);
}

#[test]
fn conversion_without_resampling_is_exact() {
    let pixels = vec![0, 0, 0, 255, 255, 255, 255, 0, 0, 0, 255, 0];
    let img = RasterImage::from_raw(2, 2, pixels.clone()).unwrap();
    let frame =
        image_to_ascii_with_colors(&img, &ratio(1, 1), 20, None, &ramp(b"abcdefghij")).unwrap();
    assert_eq!(
        frame,
        AsciiFrameData {
            ascii_text: b" j\nbg\n".to_vec(),
            width_chars: 2,
            height_chars: 2,
            rgb_colors: pixels,
        }
    );
    let text = image_to_ascii_string(&img, &ratio(1, 1), 20, Some(2), &ramp(b"abcdefghij"));
    assert_eq!(text, Ok(b" j\nbg\n".to_vec()));
}

#[test]
fn conversion_resamples_to_the_grid() {
    let mut pixels = Vec::new();
    for _ in 0..(8 * 6) {
        pixels.extend_from_slice(&[200, 100, 50]);
    }
    let img = RasterImage::from_raw(8, 6, pixels).unwrap();
    let frame = image_to_ascii_with_colors(&img, &ratio(1, 1), 20, Some(4), &ramp(b"abcdefghij"))
        .unwrap();
    assert_eq!(frame.width_chars, 4);
    assert_eq!(frame.height_chars, 3);
    assert_eq!(frame.rgb_colors.len(), 36);
    assert_eq!(frame.ascii_text.len(), 15);
    for cell in 0..12 {
        assert_eq!(&frame.rgb_colors[3 * cell..3 * cell + 3], &[200, 100, 50]);
    }
    let expected = char_for(luminance(200, 100, 50), 20, b"abcdefghij");
    assert_eq!(frame.ascii_text, {
        let mut t = Vec::new();
        for _ in 0..3 {
            t.extend_from_slice(&[expected; 4]);
            t.push(b'\n');
        }
        t
    });
    let resized = img.resized(2, 5).unwrap();
    assert_eq!((resized.width(), resized.height()), (2, 5));
    assert_eq!(resized.pixels().len(), 30);
}

#[test]
fn zero_columns_are_refused() {
    let img = RasterImage::from_raw(1, 1, vec![9, 9, 9]).unwrap();
    assert_eq!(
        image_to_ascii_with_colors(&img, &ratio(1, 1), 20, Some(0), &ramp(b"ab")),
        Err(ConvertError::Config(ConfigFault::ZeroColumns))
    );
    assert_eq!(
        image_to_ascii_string(&img, &ratio(1, 1), 20, Some(0), &ramp(b"ab")),
        Err(ConvertError::Config(ConfigFault::ZeroColumns))
    );
}

#[test]
fn oversized_grids_are_refused() {
    let img = RasterImage::from_raw(1, 1, vec![9, 9, 9]).unwrap();
    assert!(!can_resample(1, 1, u32::MAX, u32::MAX));
    assert!(can_resample(640, 480, 100, 53));
    assert!(can_resample(65536, 65536, 1, 1));
    assert!(!can_resample(65537, 1, 1, 1));
    assert!(!can_resample(1, 65537, 1, 1));
    assert!(!can_resample(1, 1, 65537, 1));
    assert!(!can_resample(1, 1, 1, 65537));
    assert!(!can_resample(67108860, 1, 134217712, 1));
    assert_eq!(
        image_to_ascii_with_colors(&img, &ratio(1, 1), 20, Some(u32::MAX), &ramp(b"ab")),
        Err(ConvertError::Config(ConfigFault::TargetTooLarge {
            target_width: u32::MAX,
            target_height: u32::MAX,
        }))
    );
}

#[test]
fn png_files_decode_to_their_pixels() {
    let pixels = vec![1, 2, 3, 40, 50, 60, 70, 80, 90, 100, 110, 120, 130, 140, 150, 255, 0, 7];
    let img = decode_image(&png_bytes(3, 2, pixels.clone()), "png").unwrap();
    assert_eq!(img.width(), 3);
    assert_eq!(img.height(), 2);
    assert_eq!(img.pixels(), &pixels);
}

#[test]
fn broken_files_do_not_decode() {
    assert!(matches!(decode_image(b"not a picture", "png"), Err(ConvertError::Decode { .. })));
    assert!(matches!(decode_image(b"", "png"), Err(ConvertError::Decode { .. })));
    assert!(matches!(decode_image(b"", "jpg"), Err(ConvertError::Decode { .. })));
    let mut cut = png_bytes(3, 2, vec![7; 18]);
    cut.truncate(20);
    assert!(matches!(decode_image(&cut, "png"), Err(ConvertError::Decode { .. })));
}

#[test]
fn the_extension_names_the_format() {
    let bytes = png_bytes(2, 1, vec![1, 2, 3, 4, 5, 6]);
    assert!(decode_image(&bytes, "png").is_ok());
    assert!(decode_image(&bytes, "PNG").is_ok());
    assert!(decode_image(&bytes, "aPnG").is_ok());
    for extension in ["jpg", "jpeg", "JFIF"] {
        assert!(matches!(decode_image(&bytes, extension), Err(ConvertError::Decode { .. })));
    }
    for extension in ["", "gif", "bmp", "png ", ".png", "pn", "txt"] {
        let failure = decode_image(&bytes, extension).err();
        assert_eq!(
            failure,
            Some(ConvertError::Decode {
                detail: format!("unsupported image format: {}", extension),
            })
        );
    }
    for extension in ["png", "apng", "jpg", "jpeg", "jfif", "gif", "", "PNG"] {
        let known = matches!(
            image::ImageFormat::from_extension(extension),
            Some(image::ImageFormat::Png) | Some(image::ImageFormat::Jpeg)
        );
        let refused = decode_image(&bytes, extension).err()
            == Some(ConvertError::Decode {
                detail: format!("unsupported image format: {}", extension),
            });
        assert_eq!(known, !refused);
    }
}

#[test]
fn resampling_to_the_same_size_copies_the_picture() {
    let pixels: Vec<u8> = (0..5 * 4 * 3).map(|i| (i * 3 % 256) as u8).collect();
    let img = RasterImage::from_raw(5, 4, pixels.clone()).unwrap();
    let same = img.resized(5, 4).unwrap();
    assert_eq!((same.width(), same.height()), (5, 4));
    assert_eq!(same.pixels(), &pixels);
}

#[test]
fn sides_beyond_the_limit_are_refused() {
    let img = RasterImage::from_raw(1, 1, vec![200, 100, 50]).unwrap();
    let widest =
        image_to_ascii_with_colors(&img, &ratio(1, 65536), 20, Some(65536), &ramp(b"ab")).unwrap();
    assert_eq!((widest.width_chars, widest.height_chars), (65536, 1));
    assert_eq!(widest.rgb_colors.len(), 3 * 65536);
    assert_eq!(&widest.rgb_colors[..3], &[200, 100, 50]);
    assert_eq!(&widest.rgb_colors[3 * 65535..], &[200, 100, 50]);
    assert_eq!(
        image_to_ascii_with_colors(&img, &ratio(1, 65537), 20, Some(65537), &ramp(b"ab")),
        Err(ConvertError::Config(ConfigFault::TargetTooLarge {
            target_width: 65537,
            target_height: 1,
        }))
    );
    assert_eq!(
        image_to_ascii_with_colors(&img, &ratio(70000, 1), 20, Some(1), &ramp(b"ab")),
        Err(ConvertError::Config(ConfigFault::TargetTooLarge {
            target_width: 1,
            target_height: 70000,
        }))
    );
}

#[test]
fn output_mode_chooses_the_files() {
    let img = RasterImage::from_raw(1, 1, vec![255, 255, 255]).unwrap();
    let r = ratio(1, 1);
    let chars = ramp(b"ab");
    let text_only = convert_image_to_ascii(&img, &r, 20, None, &chars, OutputMode::TextOnly).unwrap();
    assert_eq!(text_only.text, Some(b"b\n".to_vec()));
    assert_eq!(text_only.cframe, None);
    let color_only =
        convert_image_to_ascii(&img, &r, 20, None, &chars, OutputMode::ColorOnly).unwrap();
    assert_eq!(color_only.text, None);
    assert_eq!(
        color_only.cframe,
        Some(vec![1, 0, 0, 0, 1, 0, 0, 0, b'b', 255, 255, 255])
    );
    let both = convert_image_to_ascii(&img, &r, 20, None, &chars, OutputMode::TextAndColor).unwrap();
    assert_eq!(both.text, Some(b"b\n".to_vec()));
    assert_eq!(both.cframe, Some(vec![1, 0, 0, 0, 1, 0, 0, 0, b'b', 255, 255, 255]));
}

#[test]
fn outputs_of_a_frame_that_cannot_be_stored() {
    let frame = AsciiFrameData {
        ascii_text: b"ab\n".to_vec(),
        width_chars: 3,
        height_chars: 1,
        rgb_colors: Vec::new(),
    };
    assert!(encode_outputs(frame.clone(), OutputMode::TextOnly).is_ok());
    assert!(matches!(
        encode_outputs(frame, OutputMode::ColorOnly),
        Err(ConvertError::CorruptFrame(_))
    ));
}

#[test]
fn newline_in_the_ramp_breaks_the_binary_frame_only() {
    let img = RasterImage::from_raw(1, 1, vec![255, 255, 255]).unwrap();
    let r = ratio(1, 1);
    let chars = ramp(b"a\n");
    let text = convert_image_to_ascii(&img, &r, 20, None, &chars, OutputMode::TextOnly).unwrap();
    assert_eq!(text.text, Some(b"\n\n".to_vec()));
    assert!(matches!(
        convert_image_to_ascii(&img, &r, 20, None, &chars, OutputMode::ColorOnly),
        Err(ConvertError::CorruptFrame(_))
    ));
}
