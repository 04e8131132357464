//! The CHIP-8 machine state: memory, registers, stack, timers, frame
//! buffer and key pad, together with its mathematical view and the
//! initialization and program-load operations.

use vstd::prelude::*;

verus! {

/// The reasons a single interpreter step, or a program load, can fail.
///
/// All faults are reported to the caller; none aborts the process, and a
/// faulting operation leaves the machine state exactly as it was.
#[derive(Clone, Copy, Debug, PartialEq, Eq, Structural)]
pub enum Fault {
    /// The fetched opcode matches no known instruction.
    DecodeFault,
    /// A call was attempted with all sixteen stack slots in use.
    StackOverflow,
    /// A return was attempted with an empty stack.
    StackUnderflow,
    /// A fetch or an indexed access lies beyond the 4096-byte memory.
    MemoryOutOfBounds,
    /// A program image does not fit between 0x200 and the end of memory.
    ProgramTooLarge,
}

/// The mathematical model of the machine state: each buffer as a sequence,
/// each register as the integer it holds.
#[verifier::ext_equal]
pub ghost struct CpuView {
    /// The 4096 bytes of addressable memory.
    pub memory: Seq<u8>,
    /// The sixteen general-purpose registers V0..VF.
    pub v: Seq<u8>,
    /// The 16-bit index register I.
    pub i: u16,
    /// The program counter; it addresses the next instruction to fetch.
    pub pc: u16,
    /// The 64x32 frame buffer, row-major, one cell per pixel, 0 or 1.
    pub gfx: Seq<u8>,
    /// The delay timer, decremented externally at 60 Hz.
    pub delay_timer: u8,
    /// The sound timer, decremented externally at 60 Hz.
    pub sound_timer: u8,
    /// The sixteen return-address slots of the call stack.
    pub stack: Seq<u16>,
    /// The stack pointer; it indexes the next free slot.
    pub sp: u16,
    /// The sixteen key flags, nonzero while the key is held down.
    pub keys: Seq<u8>,
    /// Set whenever an instruction changes the frame buffer; cleared by
    /// the renderer.
    pub draw_flag: bool,
}

impl CpuView {
    /// Well-formedness: every buffer has its fixed size, the stack pointer
    /// stays within the sixteen slots, and every frame-buffer cell is 0 or 1.
    pub open spec fn wf(self) -> bool {
        &&& self.memory.len() == 4096
        &&& self.v.len() == 16
        &&& self.gfx.len() == 2048
        &&& self.stack.len() == 16
        &&& self.keys.len() == 16
        &&& self.sp <= 16
        &&& forall|p: int| 0 <= p < 2048 ==> self.gfx[p] == 0 || self.gfx[p] == 1
    }

    /// The state of a machine before initialization: every cell and
    /// register zero.
    pub open spec fn zeroed() -> CpuView {
        CpuView {
            memory: Seq::new(4096, |k: int| 0u8),
            v: Seq::new(16, |k: int| 0u8),
            i: 0,
            pc: 0,
            gfx: Seq::new(2048, |k: int| 0u8),
            delay_timer: 0,
            sound_timer: 0,
            stack: Seq::new(16, |k: int| 0u16),
            sp: 0,
            keys: Seq::new(16, |k: int| 0u8),
            draw_flag: false,
        }
    }

    /// The state of a freshly initialized machine: everything zeroed, the
    /// font bitmap in memory[0..80], and the program counter at 0x200.
    pub open spec fn initial() -> CpuView {
        CpuView {
            memory: Seq::new(4096, |k: int| if 0 <= k < 80 { font()[k] } else { 0u8 }),
            pc: 0x200,
            ..CpuView::zeroed()
        }
    }
}

/// The standard 80-byte CHIP-8 font bitmap: sixteen glyphs for the
/// hexadecimal digits 0..F, five bytes per glyph, one 4-pixel row per byte.
pub open spec fn font() -> Seq<u8> {
    seq![
        0xF0u8, 0x90, 0x90, 0x90, 0xF0, // 0
        0x20, 0x60, 0x20, 0x20, 0x70, // 1
        0xF0, 0x10, 0xF0, 0x80, 0xF0, // 2
        0xF0, 0x10, 0xF0, 0x10, 0xF0, // 3
        0x90, 0x90, 0xF0, 0x10, 0x10, // 4
        0xF0, 0x80, 0xF0, 0x10, 0xF0, // 5
        0xF0, 0x80, 0xF0, 0x90, 0xF0, // 6
        0xF0, 0x10, 0x20, 0x40, 0x40, // 7
        0xF0, 0x90, 0xF0, 0x90, 0xF0, // 8
        0xF0, 0x90, 0xF0, 0x10, 0xF0, // 9
        0xF0, 0x90, 0xF0, 0x90, 0x90, // A
        0xE0, 0x90, 0xE0, 0x90, 0xE0, // B
        0xF0, 0x80, 0x80, 0x80, 0xF0, // C
        0xE0, 0x90, 0x90, 0x90, 0xE0, // D
        0xF0, 0x80, 0xF0, 0x80, 0xF0, // E
        0xF0, 0x80, 0xF0, 0x80, 0x80, // F
    ]
}

/// The memory image after a program is copied in at 0x200.
pub open spec fn loaded_memory(mem: Seq<u8>, prog: Seq<u8>) -> Seq<u8> {
    Seq::new(4096, |p: int| if 0x200 <= p < 0x200 + prog.len() { prog[p - 0x200] } else { mem[p] })
}

/// The executable machine state. The fields mirror [`CpuView`] cell for
/// cell; [`CpuView::wf`] of the view is the data invariant every verified
/// operation preserves.
pub struct Cpu {
    /// The 4096 bytes of addressable memory.
    pub memory: Vec<u8>,
    /// The sixteen general-purpose registers V0..VF.
    pub v: Vec<u8>,
    /// The 16-bit index register I.
    pub i: u16,
    /// The program counter.
    pub pc: u16,
    /// The 64x32 frame buffer, row-major.
    pub gfx: Vec<u8>,
    /// The delay timer.
    pub delay_timer: u8,
    /// The sound timer.
    pub sound_timer: u8,
    /// The sixteen return-address slots of the call stack.
    pub stack: Vec<u16>,
    /// The stack pointer.
    pub sp: u16,
    /// The sixteen key flags.
    pub keys: Vec<u8>,
    /// Set whenever an instruction changes the frame buffer.
    pub draw_flag: bool,
}

impl View for Cpu {
    type V = CpuView;

    open spec fn view(&self) -> CpuView {
        CpuView {
            memory: self.memory@,
            v: self.v@,
            i: self.i,
            pc: self.pc,
            gfx: self.gfx@,
            delay_timer: self.delay_timer,
            sound_timer: self.sound_timer,
            stack: self.stack@,
            sp: self.sp,
            keys: self.keys@,
            draw_flag: self.draw_flag,
        }
    }
}

/// A vector of `n` zero bytes.
pub(crate) fn zeroed_bytes(n: usize) -> (r: Vec<u8>)
    ensures
        r@ == Seq::new(n as nat, |k: int| 0u8),
{
    let mut r: Vec<u8> = Vec::new();
    let mut j: usize = 0;
    while j < n
        invariant
            j <= n,
            r@ == Seq::new(j as nat, |k: int| 0u8),
        decreases n - j,
    {
        r.push(0);
        j = j + 1;
        proof {
            assert(r@ =~= Seq::new(j as nat, |k: int| 0u8));
        }
    }
    r
}

/// A vector of `n` zero words.
fn zeroed_words(n: usize) -> (r: Vec<u16>)
    ensures
        r@ == Seq::new(n as nat, |k: int| 0u16),
{
    let mut r: Vec<u16> = Vec::new();
    let mut j: usize = 0;
    while j < n
        invariant
            j <= n,
            r@ == Seq::new(j as nat, |k: int| 0u16),
        decreases n - j,
    {
        r.push(0);
        j = j + 1;
        proof {
            assert(r@ =~= Seq::new(j as nat, |k: int| 0u16));
        }
    }
    r
}

/// The font bitmap as a vector, byte for byte the table [`font`] gives.
fn font_table() -> (r: Vec<u8>)
    ensures
        r@ == font(),
{
    let mut r: Vec<u8> = Vec::new();
    r.push(0xF0); r.push(0x90); r.push(0x90); r.push(0x90); r.push(0xF0);
    r.push(0x20); r.push(0x60); r.push(0x20); r.push(0x20); r.push(0x70);
    r.push(0xF0); r.push(0x10); r.push(0xF0); r.push(0x80); r.push(0xF0);
    r.push(0xF0); r.push(0x10); r.push(0xF0); r.push(0x10); r.push(0xF0);
    r.push(0x90); r.push(0x90); r.push(0xF0); r.push(0x10); r.push(0x10);
    r.push(0xF0); r.push(0x80); r.push(0xF0); r.push(0x10); r.push(0xF0);
    r.push(0xF0); r.push(0x80); r.push(0xF0); r.push(0x90); r.push(0xF0);
    r.push(0xF0); r.push(0x10); r.push(0x20); r.push(0x40); r.push(0x40);
    r.push(0xF0); r.push(0x90); r.push(0xF0); r.push(0x90); r.push(0xF0);
    r.push(0xF0); r.push(0x90); r.push(0xF0); r.push(0x10); r.push(0xF0);
    r.push(0xF0); r.push(0x90); r.push(0xF0); r.push(0x90); r.push(0x90);
    r.push(0xE0); r.push(0x90); r.push(0xE0); r.push(0x90); r.push(0xE0);
    r.push(0xF0); r.push(0x80); r.push(0x80); r.push(0x80); r.push(0xF0);
    r.push(0xE0); r.push(0x90); r.push(0x90); r.push(0x90); r.push(0xE0);
    r.push(0xF0); r.push(0x80); r.push(0xF0); r.push(0x80); r.push(0xF0);
    r.push(0xF0); r.push(0x80); r.push(0xF0); r.push(0x80); r.push(0x80);
    proof {
        assert(r@ =~= font());
    }
    r
}

impl Default for Cpu {
    /// A machine with every cell and register zero, before initialization.
    fn default() -> (c: Cpu)
        ensures
            c@ == CpuView::zeroed(),
            c@.wf(),
    {
        let c = Cpu {
            memory: zeroed_bytes(4096),
            v: zeroed_bytes(16),
            i: 0,
            pc: 0,
            gfx: zeroed_bytes(2048),
            delay_timer: 0,
            sound_timer: 0,
            stack: zeroed_words(16),
            sp: 0,
            keys: zeroed_bytes(16),
            draw_flag: false,
        };
        proof {
            assert(c@ =~= CpuView::zeroed());
        }
        c
    }
}

impl Cpu {
    /// Reset the machine to its power-on state: all cells zeroed, the font
    /// bitmap written into memory[0..80], the program counter at 0x200,
    /// the index register, stack pointer and timers at zero.
    pub fn init(&mut self)
        ensures
            final(self)@ == CpuView::initial(),
            final(self)@.wf(),
    {
        let mut mem = font_table();
        let mut j: usize = 80;
        while j < 4096
            invariant
                80 <= j <= 4096,
                mem@.len() == j,
                mem@ == Seq::new(j as nat, |k: int| if 0 <= k < 80 { font()[k] } else { 0u8 }),
            decreases 4096 - j,
        {
            mem.push(0);
            j = j + 1;
            proof {
                assert(mem@ =~= Seq::new(j as nat, |k: int| if 0 <= k < 80 { font()[k] } else { 0u8 }));
            }
        }
        self.memory = mem;
        self.v = zeroed_bytes(16);
        self.i = 0;
        self.pc = 0x200;
        self.gfx = zeroed_bytes(2048);
        self.delay_timer = 0;
        self.sound_timer = 0;
        self.stack = zeroed_words(16);
        self.sp = 0;
        self.keys = zeroed_bytes(16);
        self.draw_flag = false;
        proof {
            assert(self@ =~= CpuView::initial());
        }
    }

    /// Copy a program image into memory starting at 0x200.
    ///
    /// An image longer than the 3584 bytes between 0x200 and the end of
    /// memory is rejected as [`Fault::ProgramTooLarge`], with the state
    /// unchanged; otherwise the image is copied verbatim and nothing else
    /// moves.
    pub fn load_program(&mut self, prog: &Vec<u8>) -> (r: Result<(), Fault>)
        requires
            old(self)@.wf(),
        ensures
            final(self)@.wf(),
            prog@.len() > 3584 ==> r == Err::<(), Fault>(Fault::ProgramTooLarge) && final(self)@ == old(self)@,
            prog@.len() <= 3584 ==> r == Ok::<(), Fault>(())
                && final(self)@ == (CpuView { memory: loaded_memory(old(self)@.memory, prog@), ..old(self)@ }),
    {
        if prog.len() > 3584 {
            return Err(Fault::ProgramTooLarge);
        }
        let mut k: usize = 0;
        while k < prog.len()
            invariant
                old(self)@.wf(),
                prog@.len() <= 3584,
                k <= prog@.len(),
                self@.memory.len() == 4096,
                forall|p: int| 0 <= p < 4096 && !(0x200 <= p < 0x200 + k) ==> self@.memory[p] == old(self)@.memory[p],
                forall|p: int| 0 <= p < k ==> self@.memory[0x200 + p] == prog@[p],
                self@.v == old(self)@.v,
                self@.i == old(self)@.i,
                self@.pc == old(self)@.pc,
                self@.gfx == old(self)@.gfx,
                self@.delay_timer == old(self)@.delay_timer,
                self@.sound_timer == old(self)@.sound_timer,
                self@.stack == old(self)@.stack,
                self@.sp == old(self)@.sp,
                self@.keys == old(self)@.keys,
                self@.draw_flag == old(self)@.draw_flag,
            decreases prog@.len() - k,
        {
            self.memory.set(0x200 + k, prog[k]);
            k = k + 1;
        }
        proof {
            assert(self@ =~= (CpuView { memory: loaded_memory(old(self)@.memory, prog@), ..old(self)@ }));
        }
        Ok(())
    }
}

} // verus!
