//! A Nintendo Entertainment System in verified Rust.

pub mod actors;
pub mod apu;
pub mod apu_laws;
pub mod audio;
pub mod bits;
pub mod bus;
pub mod bus_laws;
pub mod cartridge;
pub mod channels;
pub mod contra;
pub mod cpu;
pub mod cpu_laws;
pub mod cpu_op_laws;
pub mod data;
pub mod format_laws;
pub mod game;
pub mod image;
pub mod input;
pub mod instr;
pub mod instr_laws;
pub mod level;
pub mod line_buffer;
pub mod machine;
pub mod memory;
pub mod nes;
pub mod pacing;
pub mod palette;
pub mod picture_laws;
pub mod ppu;
pub mod ppu_core;
pub mod ppu_laws;
pub mod renderer;
pub mod sound_laws;
pub mod sprite_unit;
pub mod system_laws;
pub mod video_laws;
