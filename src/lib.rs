//! Motion-to-input adapter core: turns two-axis accelerometer samples and two
//! button states into serial-mouse packets and PS/2 make/break key packets.
pub mod fixed_point;
pub mod keyboard;
pub mod led_matrix;
pub mod mouse;

pub use keyboard::KeyboardConverter;
pub use mouse::MouseConverter;
