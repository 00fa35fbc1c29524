//! A CHIP-8 virtual machine: memory, framebuffer, font table and processor.

pub mod memory;
pub mod screen;
pub mod fonts;
pub mod rom;
pub mod cpu;
