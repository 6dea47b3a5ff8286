use blair::cursor::{
    cursor_from_file, cursor_from_images, cursor_names, fallback_cursor, fallback_pixels,
    load_cursor, resolve_size, resolve_theme, CursorImage, CursorManager,
};
use blair::geometry::Location;

fn image(size: u32, delay: u32) -> CursorImage {
    CursorImage {
        size,
        width: size,
        height: size,
        xhot: 4,
        yhot: 2,
        delay,
        pixels: vec![0; (size * size * 4) as usize],
    }
}

/// A cursor file with one image of one pixel for each size and delay.
fn file(images: &[(u32, u32, [u8; 4])]) -> Vec<u8> {
    let mut bytes = Vec::new();
    let mut number = |bytes: &mut Vec<u8>, value: u32| bytes.extend(value.to_le_bytes());
    bytes.extend(b"Xcur");
    number(&mut bytes, 16);
    number(&mut bytes, 0x1_0000);
    number(&mut bytes, images.len() as u32);
    let mut position = 16 + 12 * images.len() as u32;
    for (size, _, _) in images {
        number(&mut bytes, 0xfffd_0002);
        number(&mut bytes, *size);
        number(&mut bytes, position);
        position += 40;
    }
    for (size, delay, pixel) in images {
        for value in [36, 0xfffd_0002, *size, 1, 1, 1, 1, 0, *delay] {
            number(&mut bytes, value);
        }
        bytes.extend(pixel);
    }
    bytes
}

#[test]
fn picks_frames_closest_to_the_nominal_size() {
    let cursor =
        cursor_from_images(vec![image(24, 10), image(48, 10), image(48, 30)], 48, 2).unwrap();
    assert_eq!(cursor.frames.len(), 2);
    assert_eq!(cursor.duration_ms, 40);
    assert_eq!(cursor.frames[0].hotspot, Location { x: 2, y: 1 });
}

#[test]
fn animation_frames_follow_their_delays() {
    let cursor = cursor_from_images(vec![image(24, 10), image(24, 30)], 24, 1).unwrap();
    let first = cursor.frame_at(5);
    let second = cursor.frame_at(15);
    let wrapped = cursor.frame_at(45);
    assert!(std::ptr::eq(first, &cursor.frames[0]));
    assert!(std::ptr::eq(second, &cursor.frames[1]));
    assert!(std::ptr::eq(wrapped, &cursor.frames[0]));
}

#[test]
fn fallback_arrow_scales_with_the_requested_size() {
    let (pixels, width, height) = fallback_pixels(2);
    assert_eq!((width, height), (22, 34));
    assert_eq!(&pixels[..4], &[0x10, 0x10, 0x10, 0xff]);
    assert_eq!(&pixels[(width - 1) * 4..width * 4], &[0, 0, 0, 0]);
    let tip_fill = (2 * 2 * width + 2) * 4;
    assert_eq!(&pixels[tip_fill..tip_fill + 4], &[0xf0, 0xf0, 0xf0, 0xff]);
}

#[test]
fn the_first_of_two_equally_near_sizes_is_taken() {
    let cursor = cursor_from_images(vec![image(20, 1), image(28, 2)], 24, 1).unwrap();
    assert_eq!(cursor.frames[0].width, 20);
    assert!(cursor_from_images(Vec::new(), 24, 1).is_none());
}

#[test]
fn cursor_files_are_read() {
    let bytes = file(&[(24, 5, [1, 2, 3, 4]), (32, 6, [5, 6, 7, 8])]);
    let cursor = cursor_from_file(&bytes, 32, 1).unwrap();
    assert_eq!(cursor.frames.len(), 1);
    assert_eq!(cursor.frames[0].pixels, vec![5, 6, 7, 8]);
    assert_eq!(cursor.frames[0].delay_ms, 6);
    assert_eq!((cursor.frames[0].width, cursor.frames[0].height), (1, 1));
    assert_eq!(cursor.frames[0].hotspot, Location { x: 1, y: 0 });
    assert!(cursor_from_file(&b"Xcursor".to_vec(), 32, 1).is_none());
}

#[test]
fn the_first_usable_file_is_loaded() {
    let files = vec![b"broken".to_vec(), file(&[(24, 0, [9, 9, 9, 9])])];
    assert_eq!(load_cursor(&files, 24, 1).frames[0].pixels, vec![9, 9, 9, 9]);
    let arrow = load_cursor(&Vec::new(), 24, 2);
    assert_eq!(arrow.frames[0].pixels, fallback_pixels(3).0);
    assert_eq!(fallback_cursor(8).frames[0].width, 11);
}

#[test]
fn names_are_tried_in_order() {
    assert_eq!(
        cursor_names("text", &vec!["xterm".to_owned(), "ibeam".to_owned()]),
        vec!["text", "xterm", "ibeam", "default", "left_ptr"]
    );
}

#[test]
fn theme_and_size_come_from_settings_or_environment() {
    let some = |text: &str| Some(text.to_owned());
    assert_eq!(resolve_theme(&some("Breeze"), &some("Other")), "Breeze");
    assert_eq!(resolve_theme(&some(" "), &some("Other")), "Other");
    assert_eq!(resolve_theme(&None, &some("")), "default");
    assert_eq!(resolve_size(Some(32), &some("48")), 32);
    assert_eq!(resolve_size(None, &some("48")), 48);
    assert_eq!(resolve_size(None, &some("4 8")), 24);
    assert_eq!(resolve_size(Some(7), &some("48")), 24);
    assert_eq!(resolve_size(Some(257), &None), 24);
}

#[test]
fn cursors_are_loaded_once() {
    let mut manager = CursorManager::new(&None, Some(24), &None, &None);
    assert!(manager.is_missing("text", 0));
    manager.load("text", 0, &vec![file(&[(24, 10, [1; 4]), (24, 20, [2; 4])])]);
    assert!(!manager.is_missing("text", 1));
    assert!(manager.is_missing("text", 2));
    assert!(manager.is_animated("text", 1));
    assert_eq!(manager.image("text", 1, 12).unwrap().pixels, vec![2; 4]);
    manager.load("text", 1, &vec![file(&[(24, 10, [7; 4])])]);
    assert_eq!(manager.image("text", 1, 0).unwrap().pixels, vec![1; 4]);
    assert!(manager.image("wait", 1, 0).is_none());
    assert!(!manager.reconfigure(&None, Some(24), &None, &None));
    assert!(!manager.is_missing("text", 1));
    assert!(manager.reconfigure(&None, Some(32), &None, &None));
    assert!(manager.is_missing("text", 1));
    assert_eq!((manager.theme_name(), manager.size()), ("default", 32));
}
