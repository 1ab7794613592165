use cascii::cframe::{read_cframe_to_frame_data, write_cframe_binary};
use cascii::error::{ConvertError, FrameFault, GridFault};
use cascii::frame::{count_cells, AsciiFrameData};
use cascii::textgrid::{read_txt_to_frame_data, split_lines};

#[test]
fn frames_encode_to_header_and_records() {
    let bytes = write_cframe_binary(2, 1, b"AB\n", &[1, 2, 3, 4, 5, 6]).unwrap();
    assert_eq!(bytes, vec![2, 0, 0, 0, 1, 0, 0, 0, 65, 1, 2, 3, 66, 4, 5, 6]);
    let wide = write_cframe_binary(0x0102, 0, b"", &[]).unwrap();
    assert_eq!(wide, vec![2, 1, 0, 0, 0, 0, 0, 0]);
}

#[test]
fn newlines_are_not_stored() {
    let with = write_cframe_binary(1, 2, b"A\nB\n", &[1, 2, 3, 4, 5, 6]).unwrap();
    let without = write_cframe_binary(1, 2, b"AB", &[1, 2, 3, 4, 5, 6]).unwrap();
    assert_eq!(with, without);
    assert_eq!(with.len(), 8 + 2 * 4);
    assert_eq!(count_cells(b"A\nB\n"), 2);
}

#[test]
fn frames_without_colors_are_stored_white() {
    let bytes = write_cframe_binary(1, 1, b"x\n", &[]).unwrap();
    assert_eq!(bytes, vec![1, 0, 0, 0, 1, 0, 0, 0, b'x', 255, 255, 255]);
    let frame = read_cframe_to_frame_data(&bytes).unwrap();
    assert_eq!(frame.rgb_colors, vec![255, 255, 255]);
}

#[test]
fn mismatched_colors_are_refused() {
    assert_eq!(
        write_cframe_binary(2, 1, b"AB\n", &[1, 2, 3]),
        Err(ConvertError::CorruptFrame(FrameFault::Mismatch {
            expected_cells: 2,
            text_cells: 2,
            color_bytes: 3,
        }))
    );
    assert_eq!(
        write_cframe_binary(2, 2, b"AB\n", &[]),
        Err(ConvertError::CorruptFrame(FrameFault::Mismatch {
            expected_cells: 4,
            text_cells: 2,
            color_bytes: 0,
        }))
    );
}

#[test]
fn frames_decode_with_row_newlines() {
    let data = vec![2, 0, 0, 0, 2, 0, 0, 0, b'a', 1, 2, 3, b'b', 4, 5, 6, b'c', 7, 8, 9, b'd', 10, 11, 12];
    let frame = read_cframe_to_frame_data(&data).unwrap();
    assert_eq!(
        frame,
        AsciiFrameData {
            ascii_text: b"ab\ncd\n".to_vec(),
            width_chars: 2,
            height_chars: 2,
            rgb_colors: vec![1, 2, 3, 4, 5, 6, 7, 8, 9, 10, 11, 12],
        }
    );
}

#[test]
fn bytes_after_the_body_are_ignored() {
    let data = vec![1, 0, 0, 0, 1, 0, 0, 0, b'a', 1, 2, 3, 99, 98];
    let frame = read_cframe_to_frame_data(&data).unwrap();
    assert_eq!(frame.ascii_text, b"a\n".to_vec());
    assert_eq!(frame.rgb_colors, vec![1, 2, 3]);
}

#[test]
fn empty_grids_decode() {
    let frame = read_cframe_to_frame_data(&[0, 0, 0, 0, 0, 0, 0, 0]).unwrap();
    assert_eq!((frame.width_chars, frame.height_chars), (0, 0));
    assert!(frame.ascii_text.is_empty());
    let rows = read_cframe_to_frame_data(&[0, 0, 0, 0, 3, 0, 0, 0]).unwrap();
    assert_eq!(rows.ascii_text, b"\n\n\n".to_vec());
}

#[test]
fn round_trip_keeps_the_frame() {
    let text = b"Hello, \nworld!!\n   @#$%\n".to_vec();
    let colors: Vec<u8> = (0..(7 * 3 * 3)).map(|i| (i * 7 % 256) as u8).collect();
    let bytes = write_cframe_binary(7, 3, &text, &colors).unwrap();
    assert_eq!(bytes.len(), 8 + 7 * 3 * 4);
    let frame = read_cframe_to_frame_data(&bytes).unwrap();
    assert_eq!(frame.width_chars, 7);
    assert_eq!(frame.height_chars, 3);
    assert_eq!(frame.ascii_text, text);
    assert_eq!(frame.rgb_colors, colors);
    let again = write_cframe_binary(
        frame.width_chars,
        frame.height_chars,
        &frame.ascii_text,
        &frame.rgb_colors,
    )
    .unwrap();
    assert_eq!(again, bytes);
}

#[test]
fn round_trip_adds_only_row_newlines() {
    let colors: Vec<u8> = (0..18).collect();
    let bytes = write_cframe_binary(3, 2, b"abcdef", &colors).unwrap();
    let frame = read_cframe_to_frame_data(&bytes).unwrap();
    assert_eq!(frame.ascii_text, b"abc\ndef\n".to_vec());
    assert_eq!(frame.rgb_colors, colors);
}

#[test]
fn truncated_frames_never_decode() {
    let colors: Vec<u8> = (0..36).collect();
    let bytes = write_cframe_binary(4, 3, b"abcd\nefgh\nijkl\n", &colors).unwrap();
    assert_eq!(bytes.len(), 56);
    for len in 0..bytes.len() {
        let r = read_cframe_to_frame_data(&bytes[..len]);
        if len < 8 {
            assert_eq!(r, Err(ConvertError::CorruptFrame(FrameFault::TooSmall { len })));
        } else {
            assert_eq!(
                r,
                Err(ConvertError::CorruptFrame(FrameFault::Truncated {
                    expected_body: 48,
                    actual_body: len - 8,
                }))
            );
        }
    }
    assert!(read_cframe_to_frame_data(&bytes).is_ok());
}

#[test]
fn huge_headers_are_truncated_frames() {
    let data = [255, 255, 255, 255, 255, 255, 255, 255, 1, 2, 3];
    assert_eq!(
        read_cframe_to_frame_data(&data),
        Err(ConvertError::CorruptFrame(FrameFault::Truncated {
            expected_body: 4 * 4294967295u128 * 4294967295u128,
            actual_body: 3,
        }))
    );
}

#[test]
fn text_splits_into_lines() {
    assert_eq!(split_lines(b""), Vec::<Vec<u8>>::new());
    assert_eq!(split_lines(b"ab"), vec![b"ab".to_vec()]);
    assert_eq!(split_lines(b"ab\n"), vec![b"ab".to_vec()]);
    assert_eq!(split_lines(b"ab\n\ncd"), vec![b"ab".to_vec(), b"".to_vec(), b"cd".to_vec()]);
    assert_eq!(split_lines(b"ab\r\ncd\r"), vec![b"ab".to_vec(), b"cd\r".to_vec()]);
    assert_eq!(split_lines(b"\n"), vec![b"".to_vec()]);
    let std_lines: Vec<Vec<u8>> =
        "x\r\n\r\ny\rz\n\nw".lines().map(|l| l.as_bytes().to_vec()).collect();
    assert_eq!(split_lines(b"x\r\n\r\ny\rz\n\nw"), std_lines);
}

#[test]
fn text_frames_are_read() {
    let frame = read_txt_to_frame_data(b"abc\ndef\n").unwrap();
    assert_eq!(
        frame,
        AsciiFrameData {
            ascii_text: b"abc\ndef\n".to_vec(),
            width_chars: 3,
            height_chars: 2,
            rgb_colors: Vec::new(),
        }
    );
    let unended = read_txt_to_frame_data(b"ab\r\ncd").unwrap();
    assert_eq!(unended.ascii_text, b"ab\ncd\n".to_vec());
    assert_eq!((unended.width_chars, unended.height_chars), (2, 2));
}

#[test]
fn ragged_text_frames_are_refused() {
    assert_eq!(
        read_txt_to_frame_data(b"abc\nde\nfgh\nx\n"),
        Err(ConvertError::MalformedGrid(GridFault::Ragged { line: 1, expected: 3, found: 2 }))
    );
    assert_eq!(
        read_txt_to_frame_data(b"abc\ndefg\n"),
        Err(ConvertError::MalformedGrid(GridFault::Ragged { line: 1, expected: 3, found: 4 }))
    );
}

#[test]
fn empty_text_frames_are_refused() {
    assert_eq!(read_txt_to_frame_data(b""), Err(ConvertError::MalformedGrid(GridFault::Empty)));
    let blank = read_txt_to_frame_data(b"\n\n").unwrap();
    assert_eq!((blank.width_chars, blank.height_chars), (0, 2));
}
