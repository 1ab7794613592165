use cascii::sources::{
    is_frame_file, name_not_after, select_frames, select_rendered_frames, FrameKind,
};

fn names(list: &[&str]) -> Vec<String> {
    list.iter().map(|s| s.to_string()).collect()
}

#[test]
fn frames_are_known_by_their_extension() {
    assert!(is_frame_file("frame_0001.png", FrameKind::Png));
    assert!(is_frame_file("a.b.png", FrameKind::Png));
    assert!(!is_frame_file("frame_0001.PNG", FrameKind::Png));
    assert!(!is_frame_file("png", FrameKind::Png));
    assert!(!is_frame_file(".png", FrameKind::Png));
    assert!(!is_frame_file("a.png.txt", FrameKind::Png));
    assert!(!is_frame_file("a.pngx", FrameKind::Png));
    assert!(!is_frame_file("a.pn", FrameKind::Png));
    assert!(!is_frame_file("", FrameKind::Png));
    assert!(!is_frame_file("..", FrameKind::Png));
    assert!(is_frame_file("x.cframe", FrameKind::Cframe));
    assert!(!is_frame_file("x.cframes", FrameKind::Cframe));
    assert!(is_frame_file("frame_1.txt", FrameKind::Text));
    assert!(is_frame_file("frame_.txt", FrameKind::Text));
    assert!(!is_frame_file("details.txt", FrameKind::Text));
    assert!(!is_frame_file("frame_1.md", FrameKind::Text));
    assert!(!is_frame_file("Frame_1.txt", FrameKind::Text));
    for name in ["a.png", ".png", "a.b.png", "x", "..", "a.", "é.png"] {
        let std_says = std::path::Path::new(name).extension().map(|e| e == "png").unwrap_or(false);
        assert_eq!(is_frame_file(name, FrameKind::Png), std_says);
    }
}

#[test]
fn names_are_ordered_byte_by_byte() {
    assert!(name_not_after("a", "b"));
    assert!(!name_not_after("b", "a"));
    assert!(name_not_after("a", "a"));
    assert!(name_not_after("", "a"));
    assert!(!name_not_after("a", ""));
    assert!(name_not_after("frame_10", "frame_9"));
    assert!(name_not_after("frame_0009", "frame_0010"));
    assert!(name_not_after("Z", "a"));
    assert!(name_not_after("ab", "abc"));
    assert!(name_not_after("z", "é"));
    for a in ["", "a", "ab", "b", "é", "frame_1", "frame_10"] {
        for b in ["", "a", "ab", "b", "é", "frame_1", "frame_10"] {
            assert_eq!(name_not_after(a, b), a <= b);
        }
    }
}

#[test]
fn chosen_frames_are_sorted() {
    let input = names(&[
        "frame_0010.png",
        "frame_0002.png",
        "audio.mp3",
        "frame_0001.png",
        "frame_0003.txt",
        "frame_0100.png",
        "a.png",
    ]);
    assert_eq!(
        select_frames(&input, FrameKind::Png),
        names(&["a.png", "frame_0001.png", "frame_0002.png", "frame_0010.png", "frame_0100.png"])
    );
    assert_eq!(select_frames(&input, FrameKind::Text), names(&["frame_0003.txt"]));
    assert_eq!(select_frames(&input, FrameKind::Cframe), Vec::<String>::new());
    assert_eq!(select_frames(&Vec::new(), FrameKind::Png), Vec::<String>::new());
}

#[test]
fn sorting_matches_the_standard_order() {
    let mut input: Vec<String> = Vec::new();
    let mut seed: u32 = 12345;
    for _ in 0..300 {
        seed = seed.wrapping_mul(1103515245).wrapping_add(12345);
        input.push(format!("frame_{}.png", seed % 5000));
    }
    let mut expected = input.clone();
    expected.sort();
    assert_eq!(select_frames(&input, FrameKind::Png), expected);
}

#[test]
fn binary_frames_are_preferred_for_rendering() {
    let input = names(&["frame_2.txt", "frame_2.cframe", "frame_1.txt", "frame_1.cframe"]);
    assert_eq!(
        select_rendered_frames(&input),
        (names(&["frame_1.cframe", "frame_2.cframe"]), FrameKind::Cframe)
    );
    let only_text = names(&["frame_2.txt", "notes.txt", "frame_1.txt"]);
    assert_eq!(
        select_rendered_frames(&only_text),
        (names(&["frame_1.txt", "frame_2.txt"]), FrameKind::Text)
    );
    assert_eq!(select_rendered_frames(&names(&["x.png"])), (Vec::new(), FrameKind::Text));
}
