//! A verified CHIP-8 virtual machine.
//!
//! The machine is a single state structure (memory, registers, display,
//! stack, keypad, timers) advanced by a fetch-decode-execute cycle.  Every
//! operation is specified against a mathematical model of that state
//! (`state::MachineState`) and proved to follow the instruction semantics
//! in `step`.

pub mod state;
pub mod decode;
pub mod step;
pub mod machine;
pub mod laws;

pub use machine::Emu;
pub use state::SCREEN_HEIGHT;
pub use state::SCREEN_WIDTH;
