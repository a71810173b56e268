use vstd::prelude::*;
use crate::clock::Instant;

verus! {

/// Time, in microseconds, that a key must stay down before it counts as held.
pub const HOLD_TIME_US: u64 = 750_000;

/// An RGB color of one key's LED.
#[derive(Clone, Copy, PartialEq, Eq, Structural, Debug, Default)]
pub struct Color {
    pub r: u8,
    pub g: u8,
    pub b: u8,
}

impl Color {
    /// The color with these red, green and blue levels.
    pub fn new(r: u8, g: u8, b: u8) -> (c: Self)
        ensures
            c == (Color { r, g, b }),
    {
        Color { r, g, b }
    }

    /// The color in the byte order of the LED protocol: blue, green, red.
    pub fn as_bgr(&self) -> (bgr: [u8; 3])
        ensures
            bgr@ == seq![self.b, self.g, self.r],
    {
        [self.b, self.g, self.r]
    }
}

/// What happened to a key between two scans.
#[derive(Clone, Copy, PartialEq, Eq, Structural, Debug)]
pub enum KeyEvent {
    Pressed,
    Held,
    Released,
}

/// The state of one key.
#[derive(Clone, Copy, PartialEq, Eq, Structural, Debug)]
pub struct Key {
    pub default_color: Color,
    pub pressed_color: Color,
    pub last_pressed: Instant,
    pub pressed: bool,
    pub held: bool,
}

/// Whether a key pressed at `since` has been down long enough at `now` to count as held.
/// A reading earlier than the press never counts.
pub open spec fn hold_elapsed(since: Instant, now: Instant) -> bool {
    since.ticks <= now.ticks && now.ticks - since.ticks >= HOLD_TIME_US
}

/// One step of a key's state machine: the key's next state and the event it
/// gives, when the key's current reading is `down` at time `now`.
pub open spec fn key_step(k: Key, down: bool, now: Instant) -> (Key, Option<KeyEvent>) {
    if down && !k.pressed {
        (Key { last_pressed: now, pressed: true, held: false, ..k }, Some(KeyEvent::Pressed))
    } else if down && k.pressed && hold_elapsed(k.last_pressed, now) {
        (Key { held: true, ..k }, Some(KeyEvent::Held))
    } else if !down && k.pressed {
        (Key { pressed: false, held: false, ..k }, Some(KeyEvent::Released))
    } else {
        (k, None)
    }
}

/// The color a key shows: its active color while pressed, its default color otherwise.
pub open spec fn shown_color(k: Key) -> Color {
    if k.pressed {
        k.pressed_color
    } else {
        k.default_color
    }
}

impl Key {
    /// A released key with the stock colors: dim white, green while pressed.
    pub fn new(now: Instant) -> (k: Self)
        ensures
            k.default_color == (Color { r: 16, g: 16, b: 16 }),
            k.pressed_color == (Color { r: 0, g: 255, b: 0 }),
            k.last_pressed == now,
            !k.pressed,
            !k.held,
    {
        Key {
            default_color: Color::new(16, 16, 16),
            pressed_color: Color::new(0, 255, 0),
            last_pressed: now,
            pressed: false,
            held: false,
        }
    }

    /// Feeds the key's reading of one scan, taken at `now`, and returns the event it gives.
    pub fn update(&mut self, pressed: bool, now: Instant) -> (e: Option<KeyEvent>)
        ensures
            (*final(self), e) == key_step(*old(self), pressed, now),
    {
        if pressed && !self.pressed {
            self.last_pressed = now;
            self.pressed = true;
            self.held = false;
            Some(KeyEvent::Pressed)
        } else if pressed && self.pressed && self.last_pressed.ticks <= now.ticks
            && now.ticks - self.last_pressed.ticks >= HOLD_TIME_US {
            self.held = true;
            Some(KeyEvent::Held)
        } else if !pressed && self.pressed {
            self.pressed = false;
            self.held = false;
            Some(KeyEvent::Released)
        } else {
            None
        }
    }

    /// The color the key's LED shows now.
    pub fn color(&self) -> (c: Color)
        ensures
            c == shown_color(*self),
    {
        if self.pressed {
            self.pressed_color
        } else {
            self.default_color
        }
    }
}


/// Number of keys on the pad.
pub const NUM_KEYS: usize = 16;

/// Marker bits that the LED protocol requires in the top of each brightness byte.
pub const BRIGHTNESS_MARKER: u8 = 0xE0;

/// Highest brightness level; levels fill the low five bits of the brightness byte.
pub const MAX_LEVEL: u8 = 31;

/// Bytes sent before the first LED frame.
pub const START_FRAME: [u8; 4] = [0x00, 0x00, 0x00, 0x00];

/// Bytes sent after the last LED frame; enough for a chain of this length.
pub const END_FRAME: [u8; 4] = [0xFF, 0xFF, 0xFF, 0xFF];

/// The pressed-key mask of a raw keypad reading: the two bytes form a
/// little-endian word in which a cleared bit means a key is down.
pub open spec fn key_mask(lo: u8, hi: u8) -> u16 {
    !((lo as u16) | ((hi as u16) << 8u16))
}

/// Whether key `i` is down in a pressed-key mask.
pub open spec fn key_down(mask: u16, i: int) -> bool {
    (mask >> (i as u16)) & 1u16 == 1u16
}

/// The keys after one scan: each key stepped with its bit of `mask`.
pub open spec fn scan_keys(keys: Seq<Key>, mask: u16, now: Instant) -> Seq<Key> {
    Seq::new(keys.len(), |i: int| key_step(keys[i], key_down(mask, i), now).0)
}

/// The events of one scan over the first `n` keys, in key order, each with its key's index.
pub open spec fn scan_events(keys: Seq<Key>, mask: u16, now: Instant, n: nat) -> Seq<(u8, KeyEvent)>
    decreases n,
{
    if n == 0 {
        seq![]
    } else {
        let before = scan_events(keys, mask, now, (n - 1) as nat);
        match key_step(keys[n - 1], key_down(mask, n - 1), now).1 {
            Some(e) => before.push(((n - 1) as u8, e)),
            None => before,
        }
    }
}

/// The four bytes of one LED: brightness, then blue, green, red.
pub open spec fn led_bytes(brightness: u8, c: Color) -> Seq<u8> {
    seq![brightness, c.b, c.g, c.r]
}

/// The LED frames of `keys`, one after another in chain order.
pub open spec fn leds_bytes(brightness: u8, keys: Seq<Key>) -> Seq<u8>
    decreases keys.len(),
{
    if keys.len() == 0 {
        seq![]
    } else {
        leds_bytes(brightness, keys.drop_last()) + led_bytes(brightness, shown_color(keys.last()))
    }
}

/// A whole refresh of the LED chain: start frame, one frame per key, end frame.
pub open spec fn led_frame_of(brightness: u8, keys: Seq<Key>) -> Seq<u8> {
    START_FRAME@ + leds_bytes(brightness, keys) + END_FRAME@
}

/// Whether every key that counts as held is pressed.
pub open spec fn held_keys_pressed(keys: Seq<Key>) -> bool {
    forall|i: int| 0 <= i < keys.len() ==> #[trigger] keys[i].held ==> keys[i].pressed
}

/// The brightness byte for a level, the level capped at [`MAX_LEVEL`].
pub open spec fn brightness_byte(level: u8) -> u8 {
    BRIGHTNESS_MARKER | (if level > MAX_LEVEL { MAX_LEVEL } else { level })
}

/// The 16 keys of the pad and the brightness of their LEDs.
pub struct Keypad {
    keys: [Key; 16],
    brightness: u8,
}

impl Keypad {
    /// A key counts as held only while it is pressed.
    #[verifier::type_invariant]
    spec fn inv(&self) -> bool {
        held_keys_pressed(self.keys@)
    }

    /// The keys, by index.
    pub closed spec fn keys_spec(&self) -> Seq<Key> {
        self.keys@
    }

    /// The brightness byte sent in front of every LED's color.
    pub closed spec fn brightness_spec(&self) -> u8 {
        self.brightness
    }

    /// All keys released with the stock colors, LEDs at the lowest level.
    pub fn new(now: Instant) -> (kp: Self)
        ensures
            held_keys_pressed(kp.keys_spec()),
            forall|i: int| 0 <= i < 16 ==> {
                let k = #[trigger] kp.keys_spec()[i];
                &&& k.default_color == (Color { r: 16, g: 16, b: 16 })
                &&& k.pressed_color == (Color { r: 0, g: 255, b: 0 })
                &&& k.last_pressed == now
                &&& !k.pressed
                &&& !k.held
            },
            kp.keys_spec().len() == 16,
            kp.brightness_spec() == brightness_byte(0),
    {
        let k = Key::new(now);
        let kp = Keypad { keys: [k; 16], brightness: BRIGHTNESS_MARKER };
        assert(BRIGHTNESS_MARKER | 0u8 == BRIGHTNESS_MARKER) by (bit_vector);
        kp
    }

    /// Key `i`.
    pub fn key(&self, i: usize) -> (k: Key)
        requires
            i < 16,
        ensures
            held_keys_pressed(self.keys_spec()),
            k.held ==> k.pressed,
            k == self.keys_spec()[i as int],
    {
        proof {
            use_type_invariant(self);
        }
        self.keys[i]
    }

    /// One scan of the keypad: `raw` is the two bytes read from the key
    /// controller, `now` the time of the reading. Steps every key with its
    /// bit, in index order, and returns the events that the scan gives.
    pub fn update(&mut self, raw: [u8; 2], now: Instant) -> (events: Vec<(u8, KeyEvent)>)
        ensures
            held_keys_pressed(old(self).keys_spec()),
            held_keys_pressed(final(self).keys_spec()),
            final(self).keys_spec() == scan_keys(old(self).keys_spec(), key_mask(raw[0], raw[1]), now),
            final(self).brightness_spec() == old(self).brightness_spec(),
            events@ == scan_events(old(self).keys_spec(), key_mask(raw[0], raw[1]), now, 16),
    {
        proof {
            use_type_invariant(&*self);
        }
        let state: u16 = !(raw[0] as u16 | (raw[1] as u16) << 8u16);
        let ghost mask = key_mask(raw[0], raw[1]);
        let ghost keys0 = self.keys@;
        assert(state == mask);
        let mut events: Vec<(u8, KeyEvent)> = Vec::new();
        let mut i: usize = 0;
        while i < NUM_KEYS
            invariant
                i <= 16,
                state == mask,
                self.keys@.len() == 16,
                keys0.len() == 16,
                held_keys_pressed(keys0),
                held_keys_pressed(self.keys@),
                self.brightness == old(self).brightness,
                forall|j: int| 0 <= j < i ==> self.keys@[j] == #[trigger] key_step(keys0[j], key_down(mask, j), now).0,
                forall|j: int| i <= j < 16 ==> self.keys@[j] == keys0[j],
                events@ == scan_events(keys0, mask, now, i as nat),
            decreases 16 - i,
        {
            let bit: u16 = 1u16 << (i as u16);
            let down = state & bit != 0;
            proof {
                let iu = i as u16;
                assert(bit == 1u16 << iu);
                assert((state & bit != 0) == ((state >> iu) & 1u16 == 1u16)) by (bit_vector)
                    requires
                        iu < 16,
                        bit == 1u16 << iu,
                ;
                assert((i as int) as u16 == iu);
                assert(down == key_down(mask, i as int));
            }
            let ghost old_keys = self.keys@;
            let mut k = self.keys[i];
            assert(k == keys0[i as int]);
            let e = k.update(down, now);
            assert(scan_events(keys0, mask, now, (i + 1) as nat) == match e {
                Some(ev) => scan_events(keys0, mask, now, i as nat).push((i as u8, ev)),
                None => scan_events(keys0, mask, now, i as nat),
            });
            self.keys[i] = k;
            match e {
                Some(ev) => events.push((i as u8, ev)),
                None => {},
            }
            i = i + 1;
        }
        assert(self.keys@ =~= scan_keys(keys0, mask, now));
        events
    }

    /// The bytes of one refresh of the LED chain, to be sent in one
    /// transaction with the chain selected: the start frame, each key's
    /// brightness byte and current color (blue, green, red) in key order, and
    /// the end frame.
    pub fn led_frame(&self) -> (frame: Vec<u8>)
        ensures
            held_keys_pressed(self.keys_spec()),
            frame@ == led_frame_of(self.brightness_spec(), self.keys_spec()),
            frame@.len() == 72,
    {
        proof {
            use_type_invariant(self);
        }
        let mut frame: Vec<u8> = Vec::new();
        let mut s: usize = 0;
        while s < 4
            invariant
                s <= 4,
                frame@ == START_FRAME@.take(s as int),
            decreases 4 - s,
        {
            frame.push(START_FRAME[s]);
            assert(START_FRAME@.take(s + 1) =~= START_FRAME@.take(s as int).push(START_FRAME@[s as int]));
            s = s + 1;
        }
        assert(START_FRAME@.take(4) =~= START_FRAME@);
        let ghost keys = self.keys@;
        let ghost b = self.brightness;
        let mut i: usize = 0;
        while i < NUM_KEYS
            invariant
                i <= 16,
                keys == self.keys@,
                b == self.brightness,
                frame@ == START_FRAME@ + leds_bytes(b, keys.take(i as int)),
            decreases 16 - i,
        {
            let c = self.keys[i].color();
            let bgr = c.as_bgr();
            frame.push(self.brightness);
            frame.push(bgr[0]);
            frame.push(bgr[1]);
            frame.push(bgr[2]);
            assert(keys.take(i + 1).drop_last() =~= keys.take(i as int));
            assert(frame@ =~= START_FRAME@ + leds_bytes(b, keys.take(i + 1)));
            i = i + 1;
        }
        assert(keys.take(16) =~= keys);
        let mut e: usize = 0;
        while e < 4
            invariant
                e <= 4,
                frame@ == START_FRAME@ + leds_bytes(b, keys) + END_FRAME@.take(e as int),
            decreases 4 - e,
        {
            frame.push(END_FRAME[e]);
            assert(END_FRAME@.take(e + 1) =~= END_FRAME@.take(e as int).push(END_FRAME@[e as int]));
            assert(frame@ =~= START_FRAME@ + leds_bytes(b, keys) + END_FRAME@.take(e + 1));
            e = e + 1;
        }
        assert(END_FRAME@.take(4) =~= END_FRAME@);
        proof {
            lemma_led_frame_len(b, keys);
        }
        frame
    }

    /// Sets each key's default and active colors, key `i` from `colors[i]`.
    pub fn set_colors(&mut self, colors: [(Color, Color); 16])
        ensures
            held_keys_pressed(old(self).keys_spec()),
            held_keys_pressed(final(self).keys_spec()),
            final(self).brightness_spec() == old(self).brightness_spec(),
            final(self).keys_spec().len() == 16,
            forall|i: int| 0 <= i < 16 ==> #[trigger] final(self).keys_spec()[i] == (Key {
                default_color: colors@[i].0,
                pressed_color: colors@[i].1,
                ..old(self).keys_spec()[i]
            }),
    {
        proof {
            use_type_invariant(&*self);
        }
        let mut i: usize = 0;
        while i < NUM_KEYS
            invariant
                i <= 16,
                self.brightness == old(self).brightness,
                held_keys_pressed(old(self).keys@),
                held_keys_pressed(self.keys@),
                forall|j: int| 0 <= j < i ==> #[trigger] self.keys@[j] == (Key {
                    default_color: colors@[j].0,
                    pressed_color: colors@[j].1,
                    ..old(self).keys@[j]
                }),
                forall|j: int| i <= j < 16 ==> #[trigger] self.keys@[j] == old(self).keys@[j],
            decreases 16 - i,
        {
            let ghost old_keys = self.keys@;
            let mut k = self.keys[i];
            k.default_color = colors[i].0;
            k.pressed_color = colors[i].1;
            assert(k.held ==> k.pressed);
            self.keys[i] = k;
            assert(self.keys@ =~= old_keys.update(i as int, k));
            i = i + 1;
        }
    }

    /// Gives every key the same active color, the color it shows while pressed.
    pub fn set_pressed_color(&mut self, color: Color)
        ensures
            held_keys_pressed(old(self).keys_spec()),
            held_keys_pressed(final(self).keys_spec()),
            final(self).brightness_spec() == old(self).brightness_spec(),
            final(self).keys_spec().len() == 16,
            forall|i: int| 0 <= i < 16 ==> #[trigger] final(self).keys_spec()[i] == (Key {
                pressed_color: color,
                ..old(self).keys_spec()[i]
            }),
    {
        proof {
            use_type_invariant(&*self);
        }
        let mut i: usize = 0;
        while i < NUM_KEYS
            invariant
                i <= 16,
                self.brightness == old(self).brightness,
                held_keys_pressed(old(self).keys@),
                held_keys_pressed(self.keys@),
                forall|j: int| 0 <= j < i ==> #[trigger] self.keys@[j] == (Key {
                    pressed_color: color,
                    ..old(self).keys@[j]
                }),
                forall|j: int| i <= j < 16 ==> #[trigger] self.keys@[j] == old(self).keys@[j],
            decreases 16 - i,
        {
            let ghost old_keys = self.keys@;
            let mut k = self.keys[i];
            k.pressed_color = color;
            assert(k.held ==> k.pressed);
            self.keys[i] = k;
            assert(self.keys@ =~= old_keys.update(i as int, k));
            i = i + 1;
        }
    }

    /// Sets the LED brightness to `level` out of [`MAX_LEVEL`]; a higher
    /// level is capped at [`MAX_LEVEL`].
    pub fn set_brightness_level(&mut self, level: u8)
        ensures
            held_keys_pressed(old(self).keys_spec()),
            held_keys_pressed(final(self).keys_spec()),
            final(self).keys_spec() == old(self).keys_spec(),
            final(self).brightness_spec() == brightness_byte(level),
    {
        proof {
            use_type_invariant(&*self);
        }
        let capped: u8 = if level > MAX_LEVEL { MAX_LEVEL } else { level };
        self.brightness = BRIGHTNESS_MARKER | capped;
    }

    /// The brightness byte sent in front of every LED's color.
    pub fn brightness(&self) -> (b: u8)
        ensures
            held_keys_pressed(self.keys_spec()),
            b == self.brightness_spec(),
    {
        proof {
            use_type_invariant(self);
        }
        self.brightness
    }
}


proof fn lemma_leds_bytes_len(b: u8, keys: Seq<Key>)
    ensures
        leds_bytes(b, keys).len() == 4 * keys.len(),
    decreases keys.len(),
{
    if keys.len() > 0 {
        lemma_leds_bytes_len(b, keys.drop_last());
    }
}

/// Every keypad has 16 keys.
pub proof fn lemma_keypad_len(kp: Keypad)
    ensures
        kp.keys_spec().len() == 16,
{
}

/// Every refresh of the 16-key chain is 72 bytes long, whatever the keys'
/// states and colors and the brightness: 4 start bytes, 4 bytes per key,
/// 4 end bytes.
pub proof fn lemma_led_frame_len(b: u8, keys: Seq<Key>)
    requires
        keys.len() == 16,
    ensures
        led_frame_of(b, keys).len() == 4 + 16 * 4 + 4,
{
    lemma_leds_bytes_len(b, keys);
}

proof fn lemma_scan_events_member(keys: Seq<Key>, mask: u16, now: Instant, n: nat, k: int, e: KeyEvent)
    requires
        n <= keys.len() <= 16,
        0 <= k < 16,
    ensures
        scan_events(keys, mask, now, n).contains((k as u8, e)) <==> (k < n && key_step(
            keys[k],
            key_down(mask, k),
            now,
        ).1 == Some(e)),
    decreases n,
{
    if n > 0 {
        lemma_scan_events_member(keys, mask, now, (n - 1) as nat, k, e);
        let before = scan_events(keys, mask, now, (n - 1) as nat);
        let m = n - 1;
        if k != m {
            assert((k as u8) != (m as u8));
        }
        match key_step(keys[m], key_down(mask, m), now).1 {
            Some(ev) => {
                let after = before.push((m as u8, ev));
                assert(after.last() == (m as u8, ev));
                if after.contains((k as u8, e)) {
                    let j = choose|j: int| 0 <= j < after.len() && #[trigger] after[j] == (k as u8, e);
                    if j < before.len() {
                        assert(before[j] == (k as u8, e));
                    }
                }
                if before.contains((k as u8, e)) {
                    let j = choose|j: int| 0 <= j < before.len() && #[trigger] before[j] == (k as u8, e);
                    assert(after[j] == (k as u8, e));
                }
            },
            None => {},
        }
    }
}

/// One scan as seen by key `k`: afterwards its pressed flag is its bit, and
/// its press time is the scan's time if it just went down. The scan gives
/// `Pressed` for it exactly when it was not pressed and its bit is down,
/// `Released` exactly when it was pressed and its bit is up, and `Held`
/// exactly when it was pressed, its bit is down and the hold time has passed.
pub proof fn lemma_scan_key(keys: Seq<Key>, mask: u16, now: Instant, k: int)
    requires
        keys.len() == 16,
        0 <= k < 16,
    ensures
        scan_keys(keys, mask, now)[k].pressed == key_down(mask, k),
        scan_keys(keys, mask, now)[k].last_pressed == (if !keys[k].pressed && key_down(mask, k) {
            now
        } else {
            keys[k].last_pressed
        }),
        scan_events(keys, mask, now, 16).contains((k as u8, KeyEvent::Pressed)) <==> (
        !keys[k].pressed && key_down(mask, k)),
        scan_events(keys, mask, now, 16).contains((k as u8, KeyEvent::Released)) <==> (
        keys[k].pressed && !key_down(mask, k)),
        scan_events(keys, mask, now, 16).contains((k as u8, KeyEvent::Held)) <==> (keys[k].pressed
            && key_down(mask, k) && hold_elapsed(keys[k].last_pressed, now)),
{
    lemma_scan_events_member(keys, mask, now, 16, k, KeyEvent::Pressed);
    lemma_scan_events_member(keys, mask, now, 16, k, KeyEvent::Released);
    lemma_scan_events_member(keys, mask, now, 16, k, KeyEvent::Held);
}

/// Over two consecutive scans, key `k` gives `Pressed` at the second scan
/// exactly when its bit went from up to down, and `Released` exactly when it
/// went from down to up. A key that stayed up gives no event; a key that
/// stayed down gives none either until the hold time has passed since it
/// went down.
pub proof fn lemma_transitions(
    keys: Seq<Key>,
    first: u16,
    t1: Instant,
    second: u16,
    t2: Instant,
    k: int,
)
    requires
        keys.len() == 16,
        0 <= k < 16,
    ensures
        ({
            let mid = scan_keys(keys, first, t1);
            let events = scan_events(mid, second, t2, 16);
            &&& events.contains((k as u8, KeyEvent::Pressed)) <==> (!key_down(first, k) && key_down(
                second,
                k,
            ))
            &&& events.contains((k as u8, KeyEvent::Released)) <==> (key_down(first, k)
                && !key_down(second, k))
            &&& !key_down(first, k) && !key_down(second, k) ==> forall|e: KeyEvent|
                !#[trigger] events.contains((k as u8, e))
            &&& key_down(first, k) && key_down(second, k) && !hold_elapsed(mid[k].last_pressed, t2)
                ==> forall|e: KeyEvent| !#[trigger] events.contains((k as u8, e))
        }),
{
    let mid = scan_keys(keys, first, t1);
    lemma_scan_key(keys, first, t1, k);
    lemma_scan_key(mid, second, t2, k);
}

/// A key gives `Held` only while its bit is down and it was already down at
/// the previous scan, and only once the hold time has passed since the scan
/// at which it went down: a key's press time is set when it goes down and
/// kept while it stays down.
pub proof fn lemma_held(keys: Seq<Key>, mask: u16, now: Instant, k: int)
    requires
        keys.len() == 16,
        0 <= k < 16,
    ensures
        scan_events(keys, mask, now, 16).contains((k as u8, KeyEvent::Held)) ==> {
            &&& key_down(mask, k)
            &&& keys[k].pressed
            &&& keys[k].last_pressed.ticks <= now.ticks
            &&& now.ticks - keys[k].last_pressed.ticks >= HOLD_TIME_US
        },
        !key_down(mask, k) ==> !scan_events(keys, mask, now, 16).contains((k as u8, KeyEvent::Held)),
        keys[k].pressed && key_down(mask, k) ==> scan_keys(keys, mask, now)[k].last_pressed
            == keys[k].last_pressed,
        !keys[k].pressed && key_down(mask, k) ==> scan_keys(keys, mask, now)[k].last_pressed
            == now,
{
    lemma_scan_key(keys, mask, now, k);
}

} // verus!
