use cursor_element::error::CursorError;
use cursor_element::timeline::{AnimationTimeline, TimedTexture};

fn timeline_from(frames: &[(u32, char)]) -> AnimationTimeline<char> {
    let frames: Vec<TimedTexture<char>> = frames
        .iter()
        .map(|(delay, texture)| TimedTexture { delay: *delay, texture: *texture })
        .collect();
    match AnimationTimeline::build(frames) {
        Ok(timeline) => timeline,
        Err(e) => panic!("no timeline: {:?}", e),
    }
}

#[test]
fn keys_are_the_cumulative_delays() {
    let timeline = timeline_from(&[(100, 'a'), (50, 'b'), (200, 'c')]);
    assert_eq!(timeline.keys(), vec![100, 150, 350]);
    assert_eq!(timeline.total_duration(), 350);
}

#[test]
fn keys_strictly_increase() {
    let timeline = timeline_from(&[(1, 'a'), (1, 'b'), (1, 'c'), (4_000_000_000, 'd')]);
    let keys = timeline.keys();
    assert_eq!(keys, vec![1, 2, 3, 4_000_000_003]);
    for pair in keys.windows(2) {
        assert!(pair[0] < pair[1]);
    }
}

#[test]
fn delays_beyond_u32_add_up_in_u64() {
    let timeline = timeline_from(&[(u32::MAX, 'a'), (u32::MAX, 'b'), (2, 'c')]);
    assert_eq!(timeline.keys(), vec![4_294_967_295, 8_589_934_590, 8_589_934_592]);
    assert_eq!(timeline.total_duration(), 8_589_934_592);
}

#[test]
fn no_frames_is_a_parse_error() {
    let built = AnimationTimeline::<char>::build(Vec::new());
    assert!(matches!(built, Err(CursorError::ParseError)));
}

#[test]
fn single_frame_is_keyed_at_its_delay() {
    let timeline = timeline_from(&[(100, 'a')]);
    assert_eq!(timeline.keys(), vec![100]);
    assert_eq!(timeline.total_duration(), 100);
}

#[test]
fn single_static_frame_is_keyed_at_zero() {
    let timeline = timeline_from(&[(0, 'a')]);
    assert_eq!(timeline.keys(), vec![0]);
    assert_eq!(timeline.total_duration(), 0);
    assert_eq!(timeline.select(0), Some(&'a'));
    assert_eq!(timeline.select(1), None);
}

#[test]
fn frame_without_delay_replaces_the_one_before() {
    let timeline = timeline_from(&[(5, 'a'), (0, 'b'), (7, 'c'), (0, 'd'), (0, 'e')]);
    assert_eq!(timeline.keys(), vec![5, 12]);
    assert_eq!(timeline.total_duration(), 12);
    assert_eq!(timeline.select(5), Some(&'b'));
    assert_eq!(timeline.select(6), Some(&'e'));
}

#[test]
fn first_frame_without_delay_is_kept() {
    let timeline = timeline_from(&[(0, 'a'), (10, 'b')]);
    assert_eq!(timeline.keys(), vec![0, 10]);
    assert_eq!(timeline.select(0), Some(&'a'));
    assert_eq!(timeline.select(1), Some(&'b'));
}

#[test]
fn offset_zero_selects_the_first_frame() {
    let timeline = timeline_from(&[(100, 'a'), (50, 'b'), (200, 'c')]);
    assert_eq!(timeline.select(0), Some(&'a'));
}

#[test]
fn last_offset_selects_the_last_frame() {
    let timeline = timeline_from(&[(100, 'a'), (50, 'b'), (200, 'c')]);
    assert_eq!(timeline.select(349), Some(&'c'));
}

#[test]
fn last_offset_selects_the_frame_before_a_last_delay_of_one() {
    let timeline = timeline_from(&[(5, 'a'), (1, 'b')]);
    assert_eq!(timeline.total_duration(), 6);
    assert_eq!(timeline.select(5), Some(&'a'));
    assert_eq!(timeline.select(6), Some(&'b'));
}

#[test]
fn offset_at_the_end_selects_the_last_frame() {
    let timeline = timeline_from(&[(100, 'a'), (50, 'b'), (200, 'c')]);
    assert_eq!(timeline.select(350), Some(&'c'));
}

#[test]
fn offset_past_the_end_is_a_miss() {
    let timeline = timeline_from(&[(100, 'a'), (50, 'b'), (200, 'c')]);
    assert_eq!(timeline.select(351), None);
    assert_eq!(timeline.select(u64::MAX), None);
}

#[test]
fn each_window_ends_at_its_key() {
    let timeline = timeline_from(&[(100, 'a'), (50, 'b'), (200, 'c')]);
    assert_eq!(timeline.select(1), Some(&'a'));
    assert_eq!(timeline.select(99), Some(&'a'));
    assert_eq!(timeline.select(100), Some(&'a'));
    assert_eq!(timeline.select(101), Some(&'b'));
    assert_eq!(timeline.select(150), Some(&'b'));
    assert_eq!(timeline.select(151), Some(&'c'));
}

#[test]
fn selection_agrees_with_a_scan_of_the_keys() {
    let delays: Vec<(u32, char)> = (0..37).map(|i| ((i * 7 + 1) % 13 + 1, 'x')).collect();
    let frames: Vec<TimedTexture<usize>> = delays
        .iter()
        .enumerate()
        .map(|(i, (delay, _))| TimedTexture { delay: *delay, texture: i })
        .collect();
    let timeline = match AnimationTimeline::build(frames) {
        Ok(timeline) => timeline,
        Err(e) => panic!("no timeline: {:?}", e),
    };
    let keys = timeline.keys();
    assert_eq!(keys.len(), 37);
    for offset in 0..=timeline.total_duration() + 2 {
        let expected = keys.iter().position(|key| *key >= offset);
        assert_eq!(timeline.select(offset).copied(), expected);
    }
}

#[test]
fn selection_is_repeatable() {
    let timeline = timeline_from(&[(100, 'a'), (50, 'b'), (200, 'c')]);
    let again = timeline_from(&[(100, 'a'), (50, 'b'), (200, 'c')]);
    for offset in [0, 1, 100, 101, 149, 150, 151, 349, 350, 351] {
        assert_eq!(timeline.select(offset), timeline.select(offset));
        assert_eq!(timeline.select(offset), again.select(offset));
    }
}
