//! The decisions behind a small top-of-screen notch: battery readout, clock
//! text, audio-visualiser frame splitting, pixel encoding for the shared
//! memory buffer, and the compact/expanded surface state machine.

pub mod text;
pub mod battery;
pub mod clock;
pub mod cava;
pub mod renderer;
pub mod state;
pub mod surface;
pub mod launch;
