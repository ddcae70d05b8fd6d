use vstd::prelude::*;

use crate::{Fault, RAM_SIZE};

verus! {

/// The 80-byte built-in character font: 16 glyphs of 5 rows each, one byte
/// per row, the high nibble holding the four pixel columns of the glyph.
pub open spec fn fontset() -> Seq<u8> {
    seq![
        0xF0u8, 0x90, 0x90, 0x90, 0xF0, // 0
        0x20, 0x60, 0x20, 0x20, 0x70, // 1
        0xF0, 0x10, 0xF0, 0x80, 0xF0, // 2
        0xF0, 0x10, 0xF0, 0x10, 0xF0, // 3
        0x90, 0x90, 0xF0, 0x10, 0x10, // 4
        0xF0, 0x80, 0xF0, 0x10, 0xF0, // 5
        0xF0, 0x80, 0xF0, 0x90, 0xF0, // 6
        0xF0, 0x10, 0x20, 0x40, 0x40, // 7
        0xF0, 0x90, 0xF0, 0x90, 0xF0, // 8
        0xF0, 0x90, 0xF0, 0x10, 0xF0, // 9
        0xF0, 0x90, 0xF0, 0x90, 0x90, // A
        0xE0, 0x90, 0xE0, 0x90, 0xE0, // B
        0xF0, 0x80, 0x80, 0x80, 0xF0, // C
        0xE0, 0x90, 0x90, 0x90, 0xE0, // D
        0xF0, 0x80, 0xF0, 0x80, 0xF0, // E
        0xF0, 0x80, 0xF0, 0x80, 0x80, // F
    ]
}

/// The machine's flat byte store: 4096 bytes, addressable 0..4095.
///
/// The font occupies addresses 0x000..0x050 once loaded; a program image is
/// loaded starting at address 0x200. All access is bounds-checked: the
/// interpreter turns an out-of-range address into a fault instead of
/// touching memory.
pub struct RAM {
    pub ram: Vec<u8>,
}

impl RAM {
    /// Memory is well formed when it spans exactly 4096 bytes.
    pub open spec fn wf(self) -> bool {
        self.ram@.len() == 4096
    }

    /// Fresh memory: 4096 zero bytes.
    pub fn new() -> (r: RAM)
        ensures
            r.wf(),
            forall|i: int| 0 <= i < 4096 ==> r.ram@[i] == 0u8,
    {
        let ram: Vec<u8> = vec![0u8; RAM_SIZE];
        RAM { ram }
    }

    /// The byte at `address`.
    pub fn read(&self, address: u16) -> (r: u8)
        requires
            self.wf(),
            address < 4096,
        ensures
            r == self.ram@[address as int],
    {
        self.ram[address as usize]
    }

    /// Replace the byte at `address` with `data`.
    pub fn write(&mut self, address: u16, data: u8)
        requires
            old(self).wf(),
            address < 4096,
        ensures
            final(self).wf(),
            final(self).ram@ == old(self).ram@.update(address as int, data),
    {
        self.ram.set(address as usize, data);
    }

    /// Copy the built-in font into addresses 0..80; all other bytes keep
    /// their value.
    pub fn load_fontset(&mut self)
        requires
            old(self).wf(),
        ensures
            final(self).wf(),
            forall|i: int| 0 <= i < 80 ==> final(self).ram@[i] == fontset()[i],
            forall|i: int| 80 <= i < 4096 ==> final(self).ram@[i] == old(self).ram@[i],
    {
        let font = font_bytes();
        let mut i: usize = 0;
        while i < 80
            invariant
                self.wf(),
                i <= 80,
                font@ == fontset(),
                forall|j: int| 0 <= j < i ==> self.ram@[j] == fontset()[j],
                forall|j: int| i <= j < 4096 ==> self.ram@[j] == old(self).ram@[j],
            decreases 80 - i,
        {
            let b = font[i];
            self.ram.set(i, b);
            i = i + 1;
        }
    }

    /// Copy a program image into memory starting at address 0x200.
    ///
    /// An image larger than the space above 0x200 is rejected whole, with
    /// memory untouched.
    pub fn load_rom(&mut self, rom: &Vec<u8>) -> (r: Result<(), Fault>)
        requires
            old(self).wf(),
        ensures
            final(self).wf(),
            r is Ok <==> rom@.len() <= 4096 - 0x200,
            r is Ok ==> {
                &&& forall|i: int|
                    0 <= i < rom@.len() ==> final(self).ram@[0x200 + i] == rom@[i]
                &&& forall|i: int|
                    (0 <= i < 0x200 || 0x200 + rom@.len() <= i < 4096) ==> final(self).ram@[i]
                        == old(self).ram@[i]
            },
            r is Err ==> final(self).ram@ == old(self).ram@ && r == Result::<(), Fault>::Err(
                Fault::MemoryOutOfBounds,
            ),
    {
        if rom.len() > 4096 - 0x200 {
            return Err(Fault::MemoryOutOfBounds);
        }
        let mut i: usize = 0;
        while i < rom.len()
            invariant
                self.wf(),
                i <= rom@.len(),
                rom@.len() <= 4096 - 0x200,
                forall|j: int| 0 <= j < i ==> self.ram@[0x200 + j] == rom@[j],
                forall|j: int|
                    (0 <= j < 0x200 || 0x200 + i <= j < 4096) ==> self.ram@[j] == old(
                        self,
                    ).ram@[j],
            decreases rom@.len() - i,
        {
            let b = rom[i];
            self.ram.set(0x200 + i, b);
            i = i + 1;
        }
        Ok(())
    }
}

/// The font as an executable value, equal to `fontset()`.
fn font_bytes() -> (v: Vec<u8>)
    ensures
        v@ == fontset(),
{
    let v: Vec<u8> = vec![
        0xF0u8, 0x90, 0x90, 0x90, 0xF0, 0x20, 0x60, 0x20, 0x20, 0x70, 0xF0, 0x10, 0xF0, 0x80,
        0xF0, 0xF0, 0x10, 0xF0, 0x10, 0xF0, 0x90, 0x90, 0xF0, 0x10, 0x10, 0xF0, 0x80, 0xF0,
        0x10, 0xF0, 0xF0, 0x80, 0xF0, 0x90, 0xF0, 0xF0, 0x10, 0x20, 0x40, 0x40, 0xF0, 0x90,
        0xF0, 0x90, 0xF0, 0xF0, 0x90, 0xF0, 0x10, 0xF0, 0xF0, 0x90, 0xF0, 0x90, 0x90, 0xE0,
        0x90, 0xE0, 0x90, 0xE0, 0xF0, 0x80, 0x80, 0x80, 0xF0, 0xE0, 0x90, 0x90, 0x90, 0xE0,
        0xF0, 0x80, 0xF0, 0x80, 0xF0, 0xF0, 0x80, 0xF0, 0x80, 0x80,
    ];
    proof {
        assert(v@ =~= fontset());
    }
    v
}

} // verus!
