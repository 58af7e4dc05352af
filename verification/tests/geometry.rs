//! Room for buttons and areas to update.

use tiny_dfr::geometry::{button_clip, full_clip, room_for_buttons, Clip};

#[test]
fn spaces_are_taken_off_the_width() {
    assert_eq!(room_for_buttons(2170, 1), 2170);
    assert_eq!(room_for_buttons(2170, 12), 2170 - 16 * 11);
    assert_eq!(room_for_buttons(2170, 0), 2170);
    assert_eq!(room_for_buttons(10, 3), -22);
    assert_eq!(room_for_buttons(i32::MIN, 2), i32::MIN.wrapping_sub(16));
    assert_eq!(
        room_for_buttons(5, u32::MAX),
        5i32.wrapping_sub(16i32.wrapping_mul((u32::MAX - 1) as i32))
    );
}

#[test]
fn areas_are_those_of_the_upright_frame_buffer() {
    assert_eq!(full_clip(2170, 60), Clip { x1: 0, y1: 0, x2: 60, y2: 2170 });
    assert_eq!(
        button_clip(60, 9, 51, 100, 150, 1),
        Clip { x1: 1, y1: 100, x2: 59, y2: 250 }
    );
    assert_eq!(
        button_clip(60, 9, 51, 100, 150, 3),
        Clip { x1: 1, y1: 100, x2: 59, y2: 550 }
    );
    assert_eq!(
        button_clip(10, 1, 8, 65_000, 1000, 1),
        Clip { x1: 65_530, y1: 65_000, x2: 17, y2: 464 }
    );
}
