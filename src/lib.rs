//! A keystroke overlay's core: the key normalizer, the debounce filter, the
//! bounded display buffer and the fade state machine, with time in
//! milliseconds and opacity in thousandths.
pub mod display;
pub mod fade;
pub mod key_source;
pub mod keymap;
pub mod laws;
