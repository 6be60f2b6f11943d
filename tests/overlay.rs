use encounter_overlay::animator::{delay_ms, Animator, Sprite};
use encounter_overlay::clock::FrameClock;
use encounter_overlay::color::{marker_color, similar, within, Rgb};
use encounter_overlay::compose::{compose, Glyph, TextBlock, OUT_LEN};
use encounter_overlay::detect::{detect_markers, Frame, Marker};
use encounter_overlay::store::{decode_total, encode_total, DecodeError};
use encounter_overlay::tick::{handle_capture, Capture};
use encounter_overlay::tracker::{increment_for, EncounterTracker};
use encounter_overlay::window::{find_target_window, is_target_title};

fn blank_frame(width: usize, height: usize) -> Frame {
    Frame { width, height, pixels: vec![0u8; width * height * 4] }
}

fn paint_run(f: &mut Frame, y: usize, x0: usize, len: usize, c: Rgb) {
    for x in x0..x0 + len {
        let i = (y * f.width + x) * 4;
        f.pixels[i] = c.r;
        f.pixels[i + 1] = c.g;
        f.pixels[i + 2] = c.b;
        f.pixels[i + 3] = 255;
    }
}

fn chars(s: &str) -> Vec<char> {
    s.chars().collect()
}

#[test]
fn within_boundary() {
    assert!(within(10, 100, 110));
    assert!(within(10, 110, 100));
    assert!(!within(10, 100, 111));
    assert!(!within(10, 111, 100));
    assert!(within(10, 0, 0));
}

#[test]
fn similar_per_channel() {
    let r = marker_color();
    assert!(similar(&Rgb { r: 141, g: 195, b: 150 }, &r));
    assert!(!similar(&Rgb { r: 142, g: 205, b: 140 }, &r));
    assert!(!similar(&Rgb { r: 131, g: 194, b: 140 }, &r));
    assert!(!similar(&Rgb { r: 131, g: 205, b: 151 }, &r));
    assert!(similar(&r, &Rgb { r: 121, g: 215, b: 130 }));
}

#[test]
fn run_one_short_of_threshold_registers_nothing() {
    let mut f = blank_frame(200, 1);
    paint_run(&mut f, 0, 10, 99, marker_color());
    assert_eq!(detect_markers(&f, &marker_color(), 100, 1).len(), 0);
}

#[test]
fn run_of_threshold_registers_one() {
    let mut f = blank_frame(200, 1);
    paint_run(&mut f, 0, 10, 100, marker_color());
    assert_eq!(detect_markers(&f, &marker_color(), 100, 1), vec![Marker { x: 109, y: 0 }]);
}

#[test]
fn broken_run_does_not_add_up() {
    let mut f = blank_frame(200, 1);
    paint_run(&mut f, 0, 0, 60, marker_color());
    paint_run(&mut f, 0, 61, 60, marker_color());
    assert_eq!(detect_markers(&f, &marker_color(), 100, 1).len(), 0);
}

#[test]
fn two_separated_bars_give_two_markers() {
    let mut f = blank_frame(150, 40);
    for y in 2..6 {
        paint_run(&mut f, y, 20, 100, marker_color());
    }
    for y in 25..29 {
        paint_run(&mut f, y, 20, 100, marker_color());
    }
    let m = detect_markers(&f, &marker_color(), 100, 40);
    assert_eq!(m, vec![Marker { x: 119, y: 2 }, Marker { x: 119, y: 25 }]);
}

#[test]
fn scan_limit_cuts_rows() {
    let mut f = blank_frame(150, 40);
    paint_run(&mut f, 30, 0, 120, marker_color());
    assert_eq!(detect_markers(&f, &marker_color(), 100, 30).len(), 0);
    assert_eq!(detect_markers(&f, &marker_color(), 100, 31).len(), 1);
    assert_eq!(detect_markers(&f, &marker_color(), 100, 1000).len(), 1);
}

#[test]
fn no_match_is_empty() {
    let f = blank_frame(120, 20);
    assert!(detect_markers(&f, &marker_color(), 50, 20).is_empty());
}

#[test]
fn increments_by_bracket() {
    assert_eq!(increment_for(0), None);
    assert_eq!(increment_for(1), Some(1));
    assert_eq!(increment_for(2), Some(1));
    assert_eq!(increment_for(3), Some(3));
    assert_eq!(increment_for(4), Some(3));
    assert_eq!(increment_for(5), Some(5));
    assert_eq!(increment_for(6), Some(5));
    assert_eq!(increment_for(7), None);
}

#[test]
fn tracker_stages_on_rising_edges_only() {
    let mut t = EncounterTracker::new(0);
    assert_eq!(t.apply_pending(), Some(0));
    let mut staged = vec![];
    for (i, c) in [0usize, 0, 2, 2, 2, 0, 0, 3, 3].iter().enumerate() {
        t.observe(*c);
        if let Some(k) = t.apply_pending() {
            staged.push((i, k));
        }
    }
    assert_eq!(staged, vec![(2, 1), (7, 3)]);
    assert_eq!(t.total, 4);
}

#[test]
fn tracker_total_saturates() {
    let mut t = EncounterTracker::new(u64::MAX - 1);
    t.apply_pending();
    t.observe(5);
    assert_eq!(t.apply_pending(), Some(5));
    assert_eq!(t.total, u64::MAX);
}

fn sprite(w: usize, h: usize, px: [u8; 4]) -> Sprite {
    Sprite::new(w, h, px.repeat(w * h)).unwrap()
}

#[test]
fn animator_advances_and_wraps() {
    let frames = vec![sprite(2, 2, [1, 1, 1, 255]), sprite(2, 2, [2, 2, 2, 255])];
    let mut a = Animator::new(frames, vec![100, 200], 0).unwrap();
    a.update(50);
    assert_eq!(a.current, 0);
    a.update(150);
    assert_eq!(a.current, 1);
    a.update(300);
    assert_eq!(a.current, 1);
    a.update(350);
    assert_eq!(a.current, 0);
    assert_eq!(a.frame().pixels[0], 1);
}

#[test]
fn animator_rejects_bad_input() {
    assert!(Animator::new(vec![], vec![], 0).is_none());
    assert!(Animator::new(vec![sprite(1, 1, [0, 0, 0, 0])], vec![1, 2], 0).is_none());
    assert!(Sprite::new(301, 1, vec![0u8; 301 * 4]).is_none());
    assert!(Sprite::new(2, 2, vec![0u8; 15]).is_none());
}

#[test]
fn delay_rounds_down() {
    assert_eq!(delay_ms(100, 1), 100);
    assert_eq!(delay_ms(250, 3), 83);
}

#[test]
fn clock_gates_ticks() {
    let mut c = FrameClock::new(30, 0);
    assert_eq!(c.length, 33_333_333);
    assert!(!c.tick(10_000_000));
    assert!(c.tick(33_333_333));
    assert!(!c.tick(40_000_000));
    assert!(c.tick(70_000_000));
    assert_eq!(c.last, 70_000_000);
}

fn text() -> TextBlock {
    TextBlock {
        glyphs: vec![Glyph { x: 0, y: 0, width: 2, height: 1, coverage: vec![255, 20] }],
        width: 2,
    }
}

#[test]
fn compose_with_text_draws_backing_glyphs_and_sprite() {
    let s = sprite(90, 90, [255, 0, 0, 255]);
    let mut buf = vec![7u8; OUT_LEN];
    compose(&mut buf, &Some(text()), &s);
    let at = |x: usize, y: usize, b: &Vec<u8>| b[(y * 300 + x) * 4..(y * 300 + x) * 4 + 4].to_vec();
    assert_eq!(at(0, 0, &buf), vec![0, 0, 0, 60]);
    assert_eq!(at(178, 5, &buf), vec![255, 255, 255, 255]);
    assert_eq!(at(179, 5, &buf), vec![0, 0, 0, 60]);
    assert_eq!(at(210, 5, &buf), vec![255, 0, 0, 255]);
    assert_eq!(at(299, 94, &buf), vec![255, 0, 0, 255]);
    assert_eq!(at(299, 4, &buf), vec![0, 0, 0, 60]);
    assert_eq!(at(209, 50, &buf), vec![0, 0, 0, 60]);
}

#[test]
fn transparent_sprite_pixel_shows_backing() {
    let s = sprite(10, 10, [255, 0, 0, 0]);
    let mut buf = vec![7u8; OUT_LEN];
    compose(&mut buf, &None, &s);
    let i = (50 * 300 + 295) * 4;
    assert_eq!(buf[i..i + 4].to_vec(), vec![0, 0, 0, 60]);
    assert_eq!(buf[0..4].to_vec(), vec![7, 7, 7, 7]);
}

#[test]
fn compose_twice_is_identical() {
    let s = sprite(90, 90, [10, 200, 30, 128]);
    let mut a = vec![0u8; OUT_LEN];
    compose(&mut a, &Some(text()), &s);
    let once = a.clone();
    compose(&mut a, &None, &s);
    assert_eq!(a, once);
    let mut b = vec![99u8; OUT_LEN];
    compose(&mut b, &Some(text()), &s);
    assert_eq!(b, once);
}

#[test]
fn total_round_trip() {
    for n in [0u64, 1, 258, 123_456_789, u64::MAX] {
        assert_eq!(decode_total(&encode_total(n)), Ok(n));
    }
    assert_eq!(encode_total(258), vec![2, 1, 0, 0, 0, 0, 0, 0]);
}

#[test]
fn total_wrong_length_is_error() {
    assert_eq!(decode_total(&vec![1, 2, 3]), Err(DecodeError::WrongLength { found: 3 }));
    assert_eq!(decode_total(&vec![]), Err(DecodeError::WrongLength { found: 0 }));
}

#[test]
fn title_matching_tolerates_lookalikes() {
    assert!(is_target_title(&chars("PokeMMO")));
    assert!(is_target_title(&chars("\u{0420}ok\u{0435}\u{041C}\u{041C}O - client")));
    assert!(!is_target_title(&chars("Pokemon")));
    assert!(!is_target_title(&chars("pokeMMO")));
    assert!(!is_target_title(&chars("")));
    let titles = vec![chars("Editor"), chars("x PokeMMO"), chars("PokeMMO")];
    assert_eq!(find_target_window(&titles), Some(1));
    assert_eq!(find_target_window(&vec![chars("Editor")]), None);
}

#[test]
fn capture_outcomes() {
    let mut t = EncounterTracker::new(5);
    t.apply_pending();
    assert!(!handle_capture(&mut t, &Capture::NotReady));
    assert!(handle_capture(&mut t, &Capture::Failed));
    let bad = Frame { width: 3, height: 3, pixels: vec![0u8; 5] };
    assert!(handle_capture(&mut t, &Capture::Image(bad)));
    let mut f = blank_frame(300, 30);
    paint_run(&mut f, 3, 0, 120, marker_color());
    paint_run(&mut f, 20, 0, 120, marker_color());
    assert!(!handle_capture(&mut t, &Capture::Image(f.clone())));
    assert_eq!(t.previous, 2);
    assert_eq!(t.apply_pending(), Some(1));
    assert!(!handle_capture(&mut t, &Capture::Image(f)));
    assert_eq!(t.apply_pending(), None);
    assert_eq!(t.total, 6);
}
