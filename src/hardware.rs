//! Memory, registers and the call stack.
use vstd::prelude::*;


pub mod chip8;
pub mod instruction;
pub mod laws;
pub mod semantics;


verus! {

/// Size of the address space in bytes.
pub const MEM_SIZE: usize = 4096;

/// First address of the program region.
pub const PROGRAM_START: usize = 0x200;

/// Upper bound of the program region; the largest program is
/// `PROGRAM_END - PROGRAM_START` bytes long.
pub const PROGRAM_END: usize = 0xFFF;

/// Number of return addresses the call stack can hold.
pub const STACK_DEPTH: usize = 16;

/// Number of bytes of the built-in font (16 glyphs of 5 rows).
pub const FONT_SIZE: usize = 80;

/// The built-in hexadecimal font, one glyph of 5 bytes per digit.
pub const FONTSET: [u8; 80] = [
    0xF0, 0x90, 0x90, 0x90, 0xF0, // 0
    0x20, 0x60, 0x20, 0x20, 0x70, // 1
    0xF0, 0x10, 0xF0, 0x80, 0xF0, // 2
    0xF0, 0x10, 0xF0, 0x10, 0xF0, // 3
    0x90, 0x90, 0xF0, 0x10, 0x10, // 4
    0xF0, 0x80, 0xF0, 0x10, 0xF0, // 5
    0xF0, 0x80, 0xF0, 0x90, 0xF0, // 6
    0xF0, 0x10, 0x20, 0x40, 0x40, // 7
    0xF0, 0x90, 0xF0, 0x90, 0xF0, // 8
    0xF0, 0x90, 0xF0, 0x10, 0xF0, // 9
    0xF0, 0x90, 0xF0, 0x90, 0x90, // A
    0xE0, 0x90, 0xE0, 0x90, 0xE0, // B
    0xF0, 0x80, 0x80, 0x80, 0xF0, // C
    0xE0, 0x90, 0x90, 0x90, 0xE0, // D
    0xF0, 0x80, 0xF0, 0x80, 0xF0, // E
    0xF0, 0x80, 0xF0, 0x80, 0x80, // F
];

/// The register file: sixteen general registers (`V[15]` doubles as the
/// flag register `VF`), the index register, the program counter and the
/// two timers.
#[derive(Debug)]
pub struct Registers {
    pub gen_regs: [u8; 16],
    pub i: u16,
    pub pc: u16,
    pub dt: u8,
    pub st: u8,
}

impl Default for Registers {
    fn default() -> (r: Registers)
        ensures
            forall|k: int| 0 <= k < 16 ==> r.gen_regs[k] == 0,
            r.i == 0,
            r.pc == PROGRAM_START,
            r.dt == 0,
            r.st == 0,
    {
        Registers { gen_regs: [0u8; 16], i: 0, pc: 0x200, dt: 0, st: 0 }
    }
}

/// A bounded stack of return addresses.
#[derive(Debug)]
pub struct Chip8Stack {
    data: Vec<u16>,
}

impl View for Chip8Stack {
    type V = Seq<u16>;

    /// The addresses from the bottom of the stack to its top.
    closed spec fn view(&self) -> Seq<u16> {
        self.data@
    }
}

impl Chip8Stack {
    /// The stack holds no more than [`STACK_DEPTH`] addresses.
    pub open spec fn wf(&self) -> bool {
        self@.len() <= STACK_DEPTH
    }

    pub fn new() -> (r: Self)
        ensures
            r@ == Seq::<u16>::empty(),
            r.wf(),
    {
        Chip8Stack { data: Vec::new() }
    }

    /// Pushes `address`; fails, leaving the stack as it was, when the
    /// stack already holds [`STACK_DEPTH`] addresses.
    pub fn push(&mut self, address: u16) -> (r: Result<(), StackOverflow>)
        requires
            old(self).wf(),
        ensures
            final(self).wf(),
            r is Ok <==> old(self)@.len() < STACK_DEPTH,
            r is Ok ==> final(self)@ == old(self)@.push(address),
            r is Err ==> final(self)@ == old(self)@,
    {
        if self.data.len() < STACK_DEPTH {
            self.data.push(address);
            Ok(())
        } else {
            Err(StackOverflow)
        }
    }

    /// Removes and returns the top address; `None` on an empty stack.
    pub fn pop(&mut self) -> (r: Option<u16>)
        requires
            old(self).wf(),
        ensures
            final(self).wf(),
            old(self)@.len() == 0 ==> r is None && final(self)@ == old(self)@,
            old(self)@.len() > 0 ==> r == Some(old(self)@.last())
                && final(self)@ == old(self)@.drop_last(),
    {
        self.data.pop()
    }

    pub fn is_empty(&self) -> (r: bool)
        ensures
            r <==> self@.len() == 0,
    {
        self.data.len() == 0
    }

    pub fn len(&self) -> (r: usize)
        ensures
            r == self@.len(),
    {
        self.data.len()
    }
}

/// A push onto a full call stack.
#[derive(Debug, Clone, Copy, PartialEq, Eq, Structural)]
pub struct StackOverflow;

/// A program that does not fit in the program region.
#[derive(Debug, Clone, Copy, PartialEq, Eq, Structural)]
pub struct ProgramTooLarge;

/// The address space and the call stack.
#[derive(Debug)]
pub struct Memory {
    pub memory: Vec<u8>,
    pub stack: Chip8Stack,
}

impl Memory {
    pub open spec fn wf(&self) -> bool {
        &&& self.memory@.len() == MEM_SIZE
        &&& self.stack.wf()
    }

    /// Copies `program` to the program region starting at
    /// [`PROGRAM_START`]; a program longer than the region is refused and
    /// memory is left as it was.
    pub fn load_program(&mut self, program: &Vec<u8>) -> (r: Result<(), ProgramTooLarge>)
        requires
            old(self).wf(),
        ensures
            final(self).wf(),
            final(self).stack@ == old(self).stack@,
            r is Ok <==> program@.len() <= PROGRAM_END - PROGRAM_START,
            r is Ok ==> final(self).memory@ == loaded(old(self).memory@, program@),
            r is Err ==> final(self).memory@ == old(self).memory@,
    {
        if program.len() > self.get_max_rom_size() {
            return Err(ProgramTooLarge);
        }
        let mut k: usize = 0;
        while k < program.len()
            invariant
                program@.len() <= PROGRAM_END - PROGRAM_START,
                k <= program@.len(),
                self.wf(),
                self.stack@ == old(self).stack@,
                forall|a: int| 0 <= a < MEM_SIZE ==> #[trigger] self.memory@[a] == (
                    if PROGRAM_START <= a < PROGRAM_START + k {
                        program@[a - PROGRAM_START]
                    } else {
                        old(self).memory@[a]
                    }),
            decreases program@.len() - k,
        {
            self.memory.set(PROGRAM_START + k, program[k]);
            k = k + 1;
        }
        assert(self.memory@ =~= loaded(old(self).memory@, program@));
        Ok(())
    }

    /// The number of bytes of the largest program that fits.
    pub fn get_max_rom_size(&self) -> (r: usize)
        ensures
            r == PROGRAM_END - PROGRAM_START,
    {
        PROGRAM_END - PROGRAM_START
    }
}

/// `mem` with `program` written from [`PROGRAM_START`] on.
pub open spec fn loaded(mem: Seq<u8>, program: Seq<u8>) -> Seq<u8> {
    Seq::new(mem.len(), |a: int|
        if PROGRAM_START <= a < PROGRAM_START + program.len() {
            program[a - PROGRAM_START]
        } else {
            mem[a]
        })
}

impl Default for Memory {
    /// Zeroed memory holding the font in its first [`FONT_SIZE`] bytes,
    /// and an empty stack.
    fn default() -> (r: Memory)
        ensures
            r.wf(),
            r.stack@ == Seq::<u16>::empty(),
            forall|a: int| 0 <= a < FONT_SIZE ==> r.memory@[a] == FONTSET@[a],
            forall|a: int| FONT_SIZE <= a < MEM_SIZE ==> r.memory@[a] == 0,
    {
        let mut memory: Vec<u8> = Vec::new();
        let mut a: usize = 0;
        while a < MEM_SIZE
            invariant
                a <= MEM_SIZE,
                memory@.len() == a,
                forall|b: int| 0 <= b < a && b < FONT_SIZE ==> memory@[b] == FONTSET@[b],
                forall|b: int| FONT_SIZE <= b < a ==> memory@[b] == 0,
            decreases MEM_SIZE - a,
        {
            if a < FONT_SIZE {
                memory.push(FONTSET[a]);
            } else {
                memory.push(0);
            }
            a = a + 1;
        }
        Memory { memory, stack: Chip8Stack::new() }
    }
}

} // verus!
