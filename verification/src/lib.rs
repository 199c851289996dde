//! An interpreter core for the CHIP-8 virtual machine.
//!
//! [`Emu`] holds the whole machine: memory, registers, call stack, display,
//! keypad and timers. Its behaviour is stated against the mathematical model
//! in [`model`], where one instruction cycle is the spec function
//! [`model::cycle`].

pub mod font;
pub mod model;
pub mod rng;
pub mod emu;
pub mod laws;

pub use emu::Emu;
pub use emu::is_implemented;
pub use model::Fault;
pub use model::State;
pub use font::FONTSET;
pub use font::FONTSET_SIZE;
pub use model::SCREEN_HEIGHT;
pub use model::SCREEN_WIDTH;
