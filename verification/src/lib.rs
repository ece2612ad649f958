//! Display logic for a six-digit RGB 16-segment clock: HSB colour
//! conversion, the segment font, the LED frame layout, ambient-light
//! filtering, button debouncing and the temperature read-out.

pub mod color;
pub mod font;
pub mod digitus16;
pub mod light_sensor;
pub mod button;
pub mod crc;
pub mod temperature;
pub mod onewire;
pub mod app;
pub mod demo;
