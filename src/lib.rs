//! Core logic of a 16-key macro pad: key scanning and debounce, the LED
//! strip frame, the display command bus and the renderer's state machine,
//! the entropy and clock helpers, and the policy that maps key events to
//! actions.
pub mod clock;
pub mod config;
pub mod display;
pub mod entropy;
pub mod keypad;
pub mod policy;
pub mod render;
pub mod usb;

pub use clock::{wait, Instant};
pub use config::{Config, KeyConfig, LayerConfig};
pub use display::{Command, CommandQueue, QUEUE_CAPACITY};
pub use entropy::{bounded, random};
pub use keypad::{Color, Key, KeyEvent, Keypad, HOLD_TIME_US, MAX_LEVEL};
pub use policy::{action_for, Action};
pub use render::{accent_pair, splash_layout, Accent, RenderState, Renderer, Scene, SplashLayout, HEIGHT, STAR_COUNT, WIDTH};
pub use usb::{is_config_magic, KeyboardReport, CONFIG_MAGIC};
