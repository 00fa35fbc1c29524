use vstd::prelude::*;
use crate::fonts::{font_set, font_bytes};
use crate::memory::{Memory, RAM_SIZE, loaded};

verus! {

/// Address at which a ROM image is loaded, and where execution starts.
pub const BASE_ADDRESS: u16 = 0x200;

/// The memory at startup: the font table from address 0 on and `rom` from
/// `BASE_ADDRESS` on, every other byte zero.
pub open spec fn boot_image(rom: Seq<u8>) -> Seq<u8> {
    loaded(loaded(Seq::new(RAM_SIZE as nat, |k: int| 0u8), font_bytes(), 0), rom, BASE_ADDRESS as int)
}

/// The memory to start a program with: the font table and `rom` loaded, or `None`
/// where `rom` does not fit between `BASE_ADDRESS` and the end of memory.
pub fn boot_memory(rom: &[u8]) -> (r: Option<Memory>)
    ensures
        r is Some <==> rom@.len() <= RAM_SIZE - BASE_ADDRESS,
        r matches Some(m) ==> m@ == boot_image(rom@),
{
    if rom.len() > RAM_SIZE - BASE_ADDRESS as usize {
        return None;
    }
    let mut memory = Memory::new();
    let font = font_set();
    memory.load(font.as_slice(), crate::fonts::BASE_ADDRESS);
    memory.load(rom, BASE_ADDRESS);
    Some(memory)
}

} // verus!
