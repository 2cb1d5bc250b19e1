//! The scanline-batched machine.

pub mod batch_laws;
pub mod bus;
pub mod code;
pub mod code_laws;
pub mod cpu_state;
pub mod emitter;
pub mod emitter_laws;
pub mod interpreter;
pub mod interpreter_laws;
pub mod ppu;
pub mod program_laws;
pub mod recompiler;
pub mod recompiler_laws;
pub mod renderer;
pub mod sprite;
pub mod tile_map;
