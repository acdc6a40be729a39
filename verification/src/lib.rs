//! Verified core of the swipe keyboard: the key-cap font, the evdev key
//! tables, the visual layer layouts, the software canvas, the seeded PRNG used
//! for synthetic swipes, the next-word model and personal dictionary, and the
//! typing state machine that turns taps, swipes and suggestion picks into
//! text-injection requests.

mod ascii;
pub mod font;
pub mod input;
pub mod keyboard;
pub mod learning;
pub mod render;
pub mod synth;
pub mod typing;
pub mod typing_laws;

pub use ascii::{capitalize, capitalized, char_to_uppercase_spec, is_uppercase_spec, starts_upper, upper_of};
