use chip8::display::{theme_colors, theme_name, Display, FRAME_BYTES, HEIGHT, THEME_COUNT, TITLE, WIDTH};
use chip8::keyboard::{map_key, HostKey};

#[test]
fn window_size_is_scaled_screen() {
    assert_eq!((WIDTH, HEIGHT), (640, 320));
    assert_eq!(TITLE, "CHIP8 Emulator V1.00");
}

#[test]
fn themes_cycle_both_ways() {
    let mut d = Display::new();
    assert_eq!(d.theme, 0);
    d.prev_theme();
    assert_eq!(d.theme, THEME_COUNT - 1);
    d.next_theme();
    assert_eq!(d.theme, 0);
    for _ in 0..THEME_COUNT {
        d.next_theme();
    }
    assert_eq!(d.theme, 0);
    d.next_theme();
    d.next_theme();
    d.prev_theme();
    assert_eq!(d.theme, 1);
}

#[test]
fn theme_names_and_colors() {
    assert_eq!(theme_name(0), "Classic");
    assert_eq!(theme_name(5), "Game Boy");
    assert_eq!(theme_colors(2), ([0x00, 0x00, 0x00, 0xFF], [0xFF, 0x6B, 0x00, 0xFF]));
    assert_eq!(theme_colors(3).0, [0x1A, 0x1A, 0x2E, 0xFF]);
}

#[test]
fn title_names_the_theme() {
    let mut d = Display::new();
    assert_eq!(d.title(), "CHIP8 Emulator V1.00 \u{2014} Classic");
    d.next_theme();
    assert_eq!(d.title(), "CHIP8 Emulator V1.00 \u{2014} Green Phosphor");
}

#[test]
fn frame_paints_each_pixel_in_four_bytes() {
    let mut screen = [false; 2048];
    screen[1] = true;
    screen[2047] = true;
    let mut d = Display::new();
    d.next_theme();
    let frame = d.draw(&screen);
    assert_eq!(frame.len(), FRAME_BYTES);
    assert_eq!(&frame[0..4], &[0x00, 0x00, 0x00, 0xFF]);
    assert_eq!(&frame[4..8], &[0x00, 0xFF, 0x00, 0xFF]);
    assert_eq!(&frame[8..12], &[0x00, 0x00, 0x00, 0xFF]);
    assert_eq!(&frame[8188..8192], &[0x00, 0xFF, 0x00, 0xFF]);
}

#[test]
fn keypad_layout() {
    assert_eq!(map_key(HostKey::Digit1), Some(0x1));
    assert_eq!(map_key(HostKey::Digit4), Some(0xC));
    assert_eq!(map_key(HostKey::KeyQ), Some(0x4));
    assert_eq!(map_key(HostKey::KeyR), Some(0xD));
    assert_eq!(map_key(HostKey::KeyF), Some(0xE));
    assert_eq!(map_key(HostKey::KeyX), Some(0x0));
    assert_eq!(map_key(HostKey::KeyV), Some(0xF));
    assert_eq!(map_key(HostKey::Other), None);
    let all = [
        HostKey::Digit1, HostKey::Digit2, HostKey::Digit3, HostKey::Digit4,
        HostKey::KeyQ, HostKey::KeyW, HostKey::KeyE, HostKey::KeyR,
        HostKey::KeyA, HostKey::KeyS, HostKey::KeyD, HostKey::KeyF,
        HostKey::KeyZ, HostKey::KeyX, HostKey::KeyC, HostKey::KeyV,
    ];
    let mut seen = [false; 16];
    for k in all {
        let idx = map_key(k).unwrap();
        assert!(!seen[idx]);
        seen[idx] = true;
    }
    assert!(seen.iter().all(|s| *s));
}
