use cursor_element::element::{CursorStatus, PhysicalPoint, PointerElement, PointerRenderElement};
use cursor_element::error::CursorError;
use cursor_element::frame::{builtin_frame, decode_frames};
use cursor_element::timeline::TimedTexture;

fn pointer(frames: &[(u32, &'static str)]) -> PointerElement<&'static str, u32> {
    let frames: Vec<TimedTexture<&'static str>> = frames
        .iter()
        .map(|(delay, texture)| TimedTexture { delay: *delay, texture: *texture })
        .collect();
    match PointerElement::new(frames) {
        Ok(pointer) => pointer,
        Err(e) => panic!("no pointer: {:?}", e),
    }
}

const AT: PhysicalPoint = PhysicalPoint { x: 40, y: -3 };

#[test]
fn new_pointer_shows_the_default_cursor_from_its_start() {
    let pointer = pointer(&[(100, "a"), (50, "b")]);
    assert_eq!(pointer.current_delay(), 0);
    assert!(matches!(pointer.status(), CursorStatus::Default));
    assert_eq!(pointer.timeline().keys(), vec![100, 150]);
    assert_eq!(pointer.timeline().total_duration(), 150);
    assert_eq!(pointer.current_texture(), Ok(&"a"));
}

#[test]
fn pointer_without_frames_is_a_parse_error() {
    let built = PointerElement::<&'static str, u32>::new(Vec::new());
    assert!(matches!(built, Err(CursorError::ParseError)));
}

#[test]
fn offset_is_the_elapsed_time_modulo_the_total_duration() {
    let mut pointer = pointer(&[(100, "a"), (50, "b")]);
    pointer.set_current_delay(0);
    assert_eq!(pointer.current_delay(), 0);
    pointer.set_current_delay(149);
    assert_eq!(pointer.current_delay(), 149);
    pointer.set_current_delay(150);
    assert_eq!(pointer.current_delay(), 0);
    pointer.set_current_delay(1_000_000);
    assert_eq!(pointer.current_delay(), 100);
    pointer.set_current_delay(u64::MAX);
    assert_eq!(pointer.current_delay(), u64::MAX % 150);
}

#[test]
fn offset_of_a_static_cursor_stays_zero() {
    let mut pointer = pointer(&[(0, "a")]);
    pointer.set_current_delay(12_345);
    assert_eq!(pointer.current_delay(), 0);
    assert_eq!(pointer.current_texture(), Ok(&"a"));
}

#[test]
fn offset_from_the_clock_never_misses() {
    let mut pointer = pointer(&[(3, "a"), (1, "b"), (2, "c")]);
    let expected = ["a", "a", "a", "a", "b", "c"];
    for elapsed in 0..60u64 {
        pointer.set_current_delay(elapsed);
        assert_eq!(pointer.current_texture(), Ok(&expected[(elapsed % 6) as usize]));
    }
}

#[test]
fn setting_the_offset_keeps_status_and_timeline() {
    let mut pointer = pointer(&[(100, "a"), (50, "b")]);
    pointer.set_status(CursorStatus::Surface(9));
    pointer.set_current_delay(120);
    assert!(matches!(pointer.status(), CursorStatus::Surface(9)));
    assert_eq!(pointer.timeline().keys(), vec![100, 150]);
    pointer.seek(7);
    assert!(matches!(pointer.status(), CursorStatus::Surface(9)));
    assert_eq!(pointer.current_delay(), 7);
}

#[test]
fn setting_the_status_keeps_offset_and_timeline() {
    let mut pointer = pointer(&[(100, "a"), (50, "b")]);
    pointer.set_current_delay(120);
    pointer.set_status(CursorStatus::Hidden);
    assert!(matches!(pointer.status(), CursorStatus::Hidden));
    assert_eq!(pointer.current_delay(), 120);
    assert_eq!(pointer.timeline().keys(), vec![100, 150]);
    pointer.set_status(CursorStatus::Default);
    assert!(matches!(pointer.status(), CursorStatus::Default));
}

#[test]
fn offset_past_the_end_is_a_lookup_miss() {
    let mut pointer = pointer(&[(100, "a"), (50, "b")]);
    pointer.seek(151);
    assert_eq!(pointer.current_texture(), Err(CursorError::FrameLookupMiss));
    pointer.seek(150);
    assert_eq!(pointer.current_texture(), Ok(&"b"));
}

#[test]
fn client_surface_is_named_only_while_it_is_shown() {
    let mut pointer = pointer(&[(100, "a")]);
    assert_eq!(pointer.client_surface(), None);
    pointer.set_status(CursorStatus::Surface(9));
    assert_eq!(pointer.client_surface(), Some(&9));
    pointer.set_status(CursorStatus::Hidden);
    assert_eq!(pointer.client_surface(), None);
}

#[test]
fn hidden_pointer_draws_nothing() {
    let mut pointer = pointer(&[(100, "a"), (50, "b")]);
    pointer.set_status(CursorStatus::Hidden);
    assert_eq!(pointer.render_elements(AT, Vec::<u8>::new()), Vec::new());
    assert_eq!(pointer.render_elements(AT, vec![1u8, 2, 3]), Vec::new());
    pointer.seek(1_000);
    assert_eq!(pointer.render_elements(AT, vec![1u8]), Vec::new());
}

#[test]
fn default_cursor_draws_its_active_frame() {
    let mut pointer = pointer(&[(100, "a"), (50, "b")]);
    assert_eq!(
        pointer.render_elements(AT, Vec::<u8>::new()),
        vec![PointerRenderElement::Texture { texture: &"a", location: AT }]
    );
    pointer.set_current_delay(101);
    assert_eq!(
        pointer.render_elements(AT, vec![1u8, 2]),
        vec![PointerRenderElement::Texture { texture: &"b", location: AT }]
    );
}

#[test]
fn default_cursor_draws_nothing_on_a_lookup_miss() {
    let mut pointer = pointer(&[(100, "a"), (50, "b")]);
    pointer.seek(151);
    assert_eq!(pointer.render_elements(AT, vec![1u8, 2]), Vec::new());
}

#[test]
fn client_surface_draws_each_layer_in_order() {
    let mut pointer = pointer(&[(100, "a"), (50, "b")]);
    pointer.set_status(CursorStatus::Surface(9));
    assert_eq!(
        pointer.render_elements(AT, vec![3u8, 1, 2]),
        vec![
            PointerRenderElement::Surface(3u8),
            PointerRenderElement::Surface(1),
            PointerRenderElement::Surface(2)
        ]
    );
}

#[test]
fn client_surface_without_layers_draws_nothing() {
    let mut pointer = pointer(&[(100, "a")]);
    pointer.set_status(CursorStatus::Surface(9));
    assert_eq!(pointer.render_elements(AT, Vec::<u8>::new()), Vec::new());
}

#[test]
fn single_frame_file_round_trip() {
    let mut bytes: Vec<u8> = Vec::new();
    bytes.extend_from_slice(b"Xcur");
    for word in [16u32, 0x0001_0000, 1, 0xfffd_0002, 24, 28] {
        bytes.extend_from_slice(&word.to_le_bytes());
    }
    for word in [36u32, 0xfffd_0002, 24, 1, 1, 1, 0, 0, 100] {
        bytes.extend_from_slice(&word.to_le_bytes());
    }
    bytes.extend_from_slice(&[0xff, 0x00, 0x80, 0x40]);

    let frames = match decode_frames(&bytes, 24) {
        Ok(frames) => frames,
        Err(e) => panic!("no frames: {:?}", e),
    };
    assert_eq!(frames.len(), 1);
    assert_eq!((frames[0].width, frames[0].height, frames[0].delay), (1, 1, 100));
    assert_eq!(frames[0].pixels, vec![0xff, 0x00, 0x80, 0x40]);

    let textures: Vec<TimedTexture<Vec<u8>>> = frames
        .into_iter()
        .map(|frame| TimedTexture { delay: frame.delay, texture: frame.pixels })
        .collect();
    let mut pointer = match PointerElement::<Vec<u8>, u32>::new(textures) {
        Ok(pointer) => pointer,
        Err(e) => panic!("no pointer: {:?}", e),
    };
    assert_eq!(pointer.timeline().keys(), vec![100]);
    assert_eq!(pointer.timeline().total_duration(), 100);

    let texture = vec![0xff, 0x00, 0x80, 0x40];
    assert_eq!(pointer.timeline().select(0), Some(&texture));
    assert_eq!(pointer.timeline().select(99), Some(&texture));
    // the key 100 is itself at or after the offset 100
    assert_eq!(pointer.timeline().select(100), Some(&texture));
    assert_eq!(pointer.timeline().select(101), None);

    pointer.set_current_delay(99);
    assert_eq!(pointer.current_texture(), Ok(&texture));
    pointer.set_current_delay(100);
    assert_eq!(pointer.current_delay(), 0);
    assert_eq!(
        pointer.render_elements(AT, Vec::<u8>::new()),
        vec![PointerRenderElement::Texture { texture: &texture, location: AT }]
    );
}

#[test]
fn builtin_cursor_makes_a_static_pointer() {
    let frame = builtin_frame();
    let textures = vec![TimedTexture { delay: frame.delay, texture: frame.pixels }];
    let mut pointer = match PointerElement::<Vec<u8>, u32>::new(textures) {
        Ok(pointer) => pointer,
        Err(e) => panic!("no pointer: {:?}", e),
    };
    assert_eq!(pointer.timeline().keys(), vec![0]);
    assert_eq!(pointer.timeline().total_duration(), 0);
    pointer.set_current_delay(5_000);
    assert_eq!(pointer.render_elements(AT, Vec::<u8>::new()).len(), 1);
}
