use hyperdeck::{Color, Instant, Key, KeyEvent, Keypad};

fn at_ms(ms: u64) -> Instant {
    Instant { ticks: ms * 1000 }
}

/// Raw controller bytes with exactly the given keys down (active low).
fn raw_with(down: &[u8]) -> [u8; 2] {
    let mut word: u16 = 0xFFFF;
    for &k in down {
        word &= !(1u16 << k);
    }
    [(word & 0xFF) as u8, (word >> 8) as u8]
}

#[test]
fn scan_scenario_press_hold_release() {
    let mut kp = Keypad::new(at_ms(0));
    assert!(kp.update([0xFF, 0xFF], at_ms(10)).is_empty());
    assert_eq!(kp.update(raw_with(&[3]), at_ms(20)), vec![(3u8, KeyEvent::Pressed)]);
    assert_eq!(kp.update(raw_with(&[3]), at_ms(780)), vec![(3u8, KeyEvent::Held)]);
    assert_eq!(kp.update([0xFF, 0xFF], at_ms(790)), vec![(3u8, KeyEvent::Released)]);
    assert!(kp.update([0xFF, 0xFF], at_ms(800)).is_empty());
}

#[test]
fn held_repeats_while_down_and_not_before_threshold() {
    let mut kp = Keypad::new(at_ms(0));
    assert_eq!(kp.update(raw_with(&[7]), at_ms(100)), vec![(7u8, KeyEvent::Pressed)]);
    assert!(kp.update(raw_with(&[7]), at_ms(849)).is_empty());
    assert_eq!(kp.update(raw_with(&[7]), at_ms(850)), vec![(7u8, KeyEvent::Held)]);
    assert_eq!(kp.update(raw_with(&[7]), at_ms(900)), vec![(7u8, KeyEvent::Held)]);
    assert!(kp.key(7).held);
}

#[test]
fn released_key_never_held() {
    let mut kp = Keypad::new(at_ms(0));
    for t in [0u64, 1000, 5000] {
        assert!(kp.update([0xFF, 0xFF], at_ms(t)).is_empty());
    }
}

#[test]
fn events_come_in_key_order() {
    let mut kp = Keypad::new(at_ms(0));
    let events = kp.update(raw_with(&[15, 0, 8]), at_ms(1));
    assert_eq!(
        events,
        vec![(0u8, KeyEvent::Pressed), (8u8, KeyEvent::Pressed), (15u8, KeyEvent::Pressed)]
    );
    let events = kp.update(raw_with(&[8]), at_ms(2));
    assert_eq!(events, vec![(0u8, KeyEvent::Released), (15u8, KeyEvent::Released)]);
}

#[test]
fn every_key_bit_maps_to_its_index() {
    for k in 0u8..16 {
        let mut kp = Keypad::new(at_ms(0));
        assert_eq!(kp.update(raw_with(&[k]), at_ms(1)), vec![(k, KeyEvent::Pressed)]);
        assert!(kp.key(k as usize).pressed);
        assert_eq!(kp.update([0xFF, 0xFF], at_ms(2)), vec![(k, KeyEvent::Released)]);
    }
}

#[test]
fn key_update_press_records_time() {
    let mut k = Key::new(at_ms(0));
    assert_eq!(k.update(true, at_ms(42)), Some(KeyEvent::Pressed));
    assert_eq!(k.last_pressed, at_ms(42));
    assert!(k.pressed && !k.held);
    assert_eq!(k.update(false, at_ms(50)), Some(KeyEvent::Released));
    assert!(!k.pressed && !k.held);
    assert_eq!(k.update(false, at_ms(60)), None);
}

#[test]
fn key_color_follows_pressed_state() {
    let mut k = Key::new(at_ms(0));
    assert_eq!(k.color(), Color::new(16, 16, 16));
    k.update(true, at_ms(1));
    assert_eq!(k.color(), Color::new(0, 255, 0));
}

#[test]
fn color_bgr_order() {
    assert_eq!(Color::new(1, 2, 3).as_bgr(), [3, 2, 1]);
}

#[test]
fn led_frame_is_72_bytes_in_any_state() {
    let mut kp = Keypad::new(at_ms(0));
    assert_eq!(kp.led_frame().len(), 72);
    kp.update(raw_with(&[0, 1, 2, 3, 4, 5, 6, 7, 8, 9, 10, 11, 12, 13, 14, 15]), at_ms(1));
    kp.set_brightness_level(200);
    assert_eq!(kp.led_frame().len(), 4 + 16 * 4 + 4);
}

#[test]
fn led_frame_layout() {
    let mut kp = Keypad::new(at_ms(0));
    kp.set_brightness_level(3);
    kp.update(raw_with(&[1]), at_ms(1));
    let frame = kp.led_frame();
    assert_eq!(&frame[0..4], &[0, 0, 0, 0]);
    assert_eq!(&frame[4..8], &[0xE3, 16, 16, 16]);
    assert_eq!(&frame[8..12], &[0xE3, 0, 255, 0]);
    assert_eq!(&frame[68..72], &[0xFF, 0xFF, 0xFF, 0xFF]);
}

#[test]
fn brightness_level_is_capped() {
    let mut kp = Keypad::new(at_ms(0));
    assert_eq!(kp.brightness(), 0xE0);
    kp.set_brightness_level(31);
    assert_eq!(kp.brightness(), 0xFF);
    kp.set_brightness_level(32);
    assert_eq!(kp.brightness(), 0xFF);
    kp.set_brightness_level(10);
    assert_eq!(kp.brightness(), 0xEA);
}

#[test]
fn set_colors_and_broadcast() {
    let mut kp = Keypad::new(at_ms(0));
    let mut colors = [(Color::new(0, 0, 0), Color::new(0, 0, 0)); 16];
    for i in 0..16u8 {
        colors[i as usize] = (Color::new(i, 0, 0), Color::new(0, i, 0));
    }
    kp.set_colors(colors);
    assert_eq!(kp.key(5).default_color, Color::new(5, 0, 0));
    assert_eq!(kp.key(5).pressed_color, Color::new(0, 5, 0));
    kp.set_pressed_color(Color::new(255, 0, 0));
    for i in 0..16 {
        assert_eq!(kp.key(i).pressed_color, Color::new(255, 0, 0));
        assert_eq!(kp.key(i).default_color, Color::new(i as u8, 0, 0));
    }
}
