use hyperdeck::{
    accent_pair, action_for, bounded, is_config_magic, random, splash_layout, wait, Accent, Action,
    Color, Config, Instant, KeyEvent, KeyboardReport, HEIGHT, STAR_COUNT, WIDTH,
};
use std::cell::Cell;

#[test]
fn bounded_exact_values() {
    assert_eq!(bounded(10, 0, 3), 2);
    assert_eq!(bounded(7, 5, 5), 5);
    assert_eq!(bounded(u32::MAX, 0, 240), u32::MAX % 241);
    assert_eq!(bounded(100, 10, 19), 10);
    assert_eq!(bounded(123, 0, u32::MAX - 1), 123);
}

#[test]
fn random_takes_32_bits_msb_first() {
    let ones = || true;
    assert_eq!(random(&ones, 0, 240), u32::MAX % 241);
    let zeros = || false;
    assert_eq!(random(&zeros, 7, 9), 7);
    // bits 1,0,1,0,... give 0xAAAA_AAAA
    let n = Cell::new(0u32);
    let alternating = || {
        let v = n.get();
        n.set(v + 1);
        v % 2 == 0
    };
    assert_eq!(random(&alternating, 0, 999), 0xAAAA_AAAAu32 % 1000);
    assert_eq!(n.get(), 32);
}

#[test]
fn splash_layout_in_bounds() {
    let n = Cell::new(12345u32);
    let noisy = || {
        let v = n.get().wrapping_mul(1103515245).wrapping_add(12345);
        n.set(v);
        (v >> 16) & 1 == 1
    };
    let layout = splash_layout(&noisy);
    assert_eq!(layout.stars.len(), STAR_COUNT);
    for &(x, y) in &layout.stars {
        assert!(0 <= x && (x as u32) < WIDTH);
        assert!(0 <= y && (y as u32) < HEIGHT);
    }
    assert!((0..4).any(|k| accent_pair(k) == layout.accents));
}

#[test]
fn splash_layout_all_ones() {
    let ones = || true;
    let layout = splash_layout(&ones);
    assert_eq!(layout.stars[0], ((u32::MAX % 240) as i32, (u32::MAX % 135) as i32));
    assert_eq!(layout.accents, accent_pair(u32::MAX % 4));
}

#[test]
fn accent_palette() {
    assert_eq!(accent_pair(0), (Accent::DarkBlue, Accent::DarkRed));
    assert_eq!(accent_pair(1), (Accent::DarkBlue, Accent::DarkGoldenrod));
    assert_eq!(accent_pair(2), (Accent::Purple, Accent::DarkGreen));
    assert_eq!(accent_pair(3), (Accent::Purple, Accent::DarkCyan));
}

#[test]
fn wait_polls() {
    let start = Instant { ticks: 1_000 };
    assert!(!wait(start, Instant { ticks: 1_000 }, 2));
    assert!(!wait(start, Instant { ticks: 2_999 }, 2));
    assert!(wait(start, Instant { ticks: 3_000 }, 2));
    assert!(wait(start, Instant { ticks: 1_000 }, 0));
    assert!(!wait(start, Instant { ticks: 500 }, 0));
}

#[test]
fn policy_actions() {
    assert_eq!(action_for(0, KeyEvent::Pressed), Some(Action::ShowSplash));
    assert_eq!(
        action_for(0, KeyEvent::Held),
        Some(Action::SetPressedColor(Color::new(255, 0, 0)))
    );
    assert_eq!(
        action_for(1, KeyEvent::Held),
        Some(Action::SetPressedColor(Color::new(0, 255, 0)))
    );
    assert_eq!(
        action_for(2, KeyEvent::Held),
        Some(Action::SetPressedColor(Color::new(0, 0, 255)))
    );
    assert_eq!(action_for(3, KeyEvent::Held), Some(Action::ResetToBootloader));
    assert_eq!(
        action_for(15, KeyEvent::Pressed),
        Some(Action::SendKeyboard(KeyboardReport {
            modifier: 0b101,
            reserved: 0,
            leds: 0,
            keycodes: [0x17, 0, 0, 0, 0, 0],
        }))
    );
    for id in [0u8, 4, 15] {
        assert_eq!(
            action_for(id, KeyEvent::Released),
            Some(Action::SendKeyboard(KeyboardReport {
                modifier: 0,
                reserved: 0,
                leds: 0,
                keycodes: [0; 6],
            }))
        );
    }
    assert_eq!(action_for(4, KeyEvent::Pressed), None);
    assert_eq!(action_for(15, KeyEvent::Held), None);
    assert_eq!(action_for(3, KeyEvent::Pressed), None);
}

#[test]
fn config_magic() {
    assert!(is_config_magic(b"HYPER"));
    assert!(!is_config_magic(b"HYPEX"));
    assert!(!is_config_magic(&[0; 5]));
}

#[test]
fn default_config_has_no_layers() {
    let c = Config::default();
    for i in 0..6 {
        assert!(c.layer(i).is_none());
    }
}
