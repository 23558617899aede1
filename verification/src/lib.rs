//! A desktop clock that pops up at configured times of day and runs
//! repeating countdowns. The library holds the clock's rules: reading its
//! configuration strings, deciding when a popup starts and how it animates,
//! choosing sounds and tips, and composing what each frame shows.

pub mod text;
pub mod decimal;
pub mod color;
pub mod schedule;
pub mod countdown;
pub mod choice;
pub mod model;
pub mod clock;
pub mod frame;
pub mod settings;
pub mod laws;
