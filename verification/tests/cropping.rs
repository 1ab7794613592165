use cascii::cframe::{read_cframe_to_frame_data, write_cframe_binary};
use cascii::crop::{
    crop_frame_data, crop_frame_files, crop_frames, crop_text, cropped_size, CropMargins,
    CropResult, FrameFiles,
};
use cascii::error::{ConfigFault, ConvertError, GridFault};
use cascii::frame::AsciiFrameData;

fn margins(top: usize, bottom: usize, left: usize, right: usize) -> CropMargins {
    CropMargins { top, bottom, left, right }
}

fn grid() -> AsciiFrameData {
    AsciiFrameData {
        ascii_text: b"abcd\nefgh\nijkl\n".to_vec(),
        width_chars: 4,
        height_chars: 3,
        rgb_colors: (0..36).collect(),
    }
}

#[test]
fn crops_are_checked_against_the_size() {
    assert_eq!(cropped_size(margins(1, 1, 1, 2), 4, 3), Ok((1, 1)));
    assert_eq!(cropped_size(margins(0, 0, 0, 0), 4, 3), Ok((4, 3)));
    assert_eq!(
        cropped_size(margins(2, 1, 0, 0), 4, 3),
        Err(ConvertError::Config(ConfigFault::CropRows { top: 2, bottom: 1, rows: 3 }))
    );
    assert_eq!(
        cropped_size(margins(0, 0, 3, 2), 4, 3),
        Err(ConvertError::Config(ConfigFault::CropColumns { left: 3, right: 2, columns: 4 }))
    );
    assert!(cropped_size(margins(usize::MAX, usize::MAX, 0, 0), 4, 3).is_err());
}

#[test]
fn text_is_cropped_line_by_line() {
    assert_eq!(crop_text(b"abcd\nefgh\nijkl\n", 1, 1, 2, 1), b"fg\n".to_vec());
    assert_eq!(crop_text(b"abcd\nefgh\nijkl\n", 0, 0, 4, 3), b"abcd\nefgh\nijkl\n".to_vec());
    assert_eq!(crop_text(b"abcd\nef\n\nijkl", 1, 1, 2, 3), b"f\n\njk\n".to_vec());
    assert_eq!(crop_text(b"abcd\n", 3, 0, 2, 2), b"\n".to_vec());
    assert_eq!(crop_text(b"", 0, 0, 2, 2), b"\n".to_vec());
    assert_eq!(crop_text(b"abcd\r\nefgh\r\n", 0, 2, 2, 2), b"cd\ngh\n".to_vec());
}

#[test]
fn frames_are_cropped_with_their_colors() {
    let out = crop_frame_data(&grid(), margins(1, 0, 1, 1)).unwrap();
    assert_eq!(
        out,
        AsciiFrameData {
            ascii_text: b"fg\njk\n".to_vec(),
            width_chars: 2,
            height_chars: 2,
            rgb_colors: vec![15, 16, 17, 18, 19, 20, 27, 28, 29, 30, 31, 32],
        }
    );
    assert_eq!(crop_frame_data(&grid(), margins(0, 0, 0, 0)), Ok(grid()));
}

#[test]
fn frames_that_are_not_laid_out_are_not_cropped() {
    let mut f = grid();
    f.ascii_text.pop();
    assert!(matches!(
        crop_frame_data(&f, margins(0, 0, 0, 0)),
        Err(ConvertError::CorruptFrame(_))
    ));
    let mut g = grid();
    g.rgb_colors.clear();
    assert!(matches!(
        crop_frame_data(&g, margins(0, 0, 0, 0)),
        Err(ConvertError::CorruptFrame(_))
    ));
    assert_eq!(
        crop_frame_data(&grid(), margins(0, 0, 2, 2)),
        Err(ConvertError::Config(ConfigFault::CropColumns { left: 2, right: 2, columns: 4 }))
    );
}

#[test]
fn files_of_a_frame_are_cropped_together() {
    let g = grid();
    let cframe = write_cframe_binary(4, 3, &g.ascii_text, &g.rgb_colors).unwrap();
    let input = FrameFiles { text: g.ascii_text.clone(), cframe: Some(cframe) };
    let out = crop_frame_files(&input, margins(1, 0, 1, 1), 2, 2).unwrap();
    assert_eq!(out.text, b"fg\njk\n".to_vec());
    let decoded = read_cframe_to_frame_data(&out.cframe.unwrap()).unwrap();
    assert_eq!(decoded, crop_frame_data(&g, margins(1, 0, 1, 1)).unwrap());
    let text_only = FrameFiles { text: g.ascii_text.clone(), cframe: None };
    let out = crop_frame_files(&text_only, margins(0, 2, 0, 3), 1, 1).unwrap();
    assert_eq!(out, FrameFiles { text: b"a\n".to_vec(), cframe: None });
    let broken = FrameFiles { text: g.ascii_text, cframe: Some(vec![1, 2, 3]) };
    assert!(matches!(
        crop_frame_files(&broken, margins(0, 0, 0, 0), 4, 3),
        Err(ConvertError::CorruptFrame(_))
    ));
}

#[test]
fn frames_of_a_directory_are_cropped() {
    let g = grid();
    let cframe = write_cframe_binary(4, 3, &g.ascii_text, &g.rgb_colors).unwrap();
    let frames = vec![
        FrameFiles { text: g.ascii_text.clone(), cframe: Some(cframe) },
        FrameFiles { text: b"ABCD\nEFGH\nIJKL\n".to_vec(), cframe: None },
    ];
    let (files, result) = crop_frames(&frames, 1, 1, 0, 2).unwrap();
    assert_eq!(files.len(), 2);
    assert_eq!(files[0].text, b"ef\n".to_vec());
    assert_eq!(files[1], FrameFiles { text: b"EF\n".to_vec(), cframe: None });
    assert_eq!(
        files[0].cframe,
        Some(vec![2, 0, 0, 0, 1, 0, 0, 0, b'e', 12, 13, 14, b'f', 15, 16, 17])
    );
    assert_eq!(
        result,
        CropResult { frame_count: 2, new_width: 2, new_height: 1, total_size: 3 + 16 + 3 }
    );
}

#[test]
fn crops_of_nothing_are_refused() {
    assert_eq!(crop_frames(&Vec::new(), 0, 0, 0, 0), Err(ConvertError::NoFrames));
    let empty = vec![FrameFiles { text: Vec::new(), cframe: None }];
    assert_eq!(
        crop_frames(&empty, 0, 0, 0, 0),
        Err(ConvertError::MalformedGrid(GridFault::Empty))
    );
    let one = vec![FrameFiles { text: b"ab\ncd\n".to_vec(), cframe: None }];
    assert_eq!(
        crop_frames(&one, 1, 1, 0, 0),
        Err(ConvertError::Config(ConfigFault::CropRows { top: 1, bottom: 1, rows: 2 }))
    );
    assert_eq!(
        crop_frames(&one, 0, 0, 1, 1),
        Err(ConvertError::Config(ConfigFault::CropColumns { left: 1, right: 1, columns: 2 }))
    );
}
