use vstd::prelude::*;

use crate::display::{sprite_covers, Display};
use crate::keypad::{key_pressed, Keypad};
use crate::ram::RAM;
use crate::rng::random_byte;
use crate::timer::Timer;
use crate::{Fault, REGISTER_COUNT, STACK_SIZE};

verus! {

/// Whether the interpreter is executing instructions or suspended on the
/// wait-for-key instruction. The suspension is an explicit mode so the
/// external driver keeps control while a key is awaited; the register that
/// will receive the key index travels with the mode.
#[derive(Clone, Copy, Debug, PartialEq, Eq, Structural)]
pub enum Mode {
    Running,
    AwaitingKey(u8),
}

/// The result, modulo 256, of adding two register bytes.
pub open spec fn wrap_add(a: u8, b: u8) -> u8 {
    ((a + b) % 256) as u8
}

/// The result, modulo 256, of subtracting register byte `b` from `a`.
pub open spec fn wrap_sub(a: u8, b: u8) -> u8 {
    ((a - b) % 256) as u8
}

/// The 16-bit instruction word at `pc`: two consecutive memory bytes
/// composed big-endian.
pub open spec fn spec_fetch(m: Seq<u8>, pc: int) -> u16 {
    (m[pc] * 256 + m[pc + 1]) as u16
}

/// The interpreter core: the 16 general-purpose registers, the 16-bit index
/// register, the program counter, the call stack, and the running mode.
///
/// Register 0xF is the flag register: several instructions overwrite it with
/// a carry, borrow or collision outcome.
pub struct CPU {
    pub registers: Vec<u8>,
    pub index_register: u16,
    pub program_counter: u16,
    pub stack: Vec<u16>,
    pub mode: Mode,
}

/// The index register, call stack and mode are untouched.
pub open spec fn keeps_index_stack_mode(pre: CPU, post: CPU) -> bool {
    &&& post.index_register == pre.index_register
    &&& post.stack@ == pre.stack@
    &&& post.mode == pre.mode
}

/// The program counter advanced past a completed two-byte instruction.
pub open spec fn advances_pc(pre: CPU, post: CPU) -> bool {
    post.program_counter == pre.program_counter + 2
}

/// Every field of the core is untouched.
pub open spec fn cpu_unchanged(pre: CPU, post: CPU) -> bool {
    &&& post.registers@ == pre.registers@
    &&& post.program_counter == pre.program_counter
    &&& keeps_index_stack_mode(pre, post)
}

/// How one interpreter step resolves the awaiting-a-key mode against a key
/// snapshot: with no key pressed the core is untouched and stays suspended;
/// otherwise the lowest pressed key index lands in register `x`, the
/// program counter moves past the wait instruction, and execution resumes.
pub open spec fn key_wait_step(pre: CPU, post: CPU, x: u8, keys: Keypad) -> bool {
    &&& post.index_register == pre.index_register
    &&& post.stack@ == pre.stack@
    &&& ((forall|j: int| 0 <= j < 16 ==> !keys.keys@[j]) ==> cpu_unchanged(pre, post))
    &&& ((exists|j: int| 0 <= j < 16 && keys.keys@[j]) ==> (exists|k: u8|
        {
            &&& k < 16
            &&& #[trigger] keys.keys@[k as int]
            &&& forall|j: int| 0 <= j < k ==> !keys.keys@[j]
            &&& post.registers@ == pre.registers@.update(x as int, k)
            &&& post.program_counter == pre.program_counter + 2
            &&& post.mode == Mode::Running
        }))
}

impl CPU {
    /// The core is well formed when it has exactly 16 registers, a call
    /// stack within capacity holding only memory addresses, and a mode that
    /// names a real register.
    pub open spec fn wf(self) -> bool {
        &&& self.registers@.len() == 16
        &&& self.stack@.len() <= 16
        &&& forall|i: int| 0 <= i < self.stack@.len() ==> self.stack@[i] < 4096
        &&& match self.mode {
            Mode::Running => true,
            Mode::AwaitingKey(x) => x < 16,
        }
    }

    /// A fresh core: registers and index zero, program counter at the
    /// program load address 0x200, empty stack, running.
    pub fn new() -> (r: CPU)
        ensures
            r.wf(),
            forall|i: int| 0 <= i < 16 ==> r.registers@[i] == 0u8,
            r.index_register == 0,
            r.program_counter == 0x200,
            r.stack@.len() == 0,
            r.mode == Mode::Running,
    {
        let registers: Vec<u8> = vec![0u8; REGISTER_COUNT];
        let stack: Vec<u16> = Vec::new();
        CPU { registers, index_register: 0, program_counter: 0x200, stack, mode: Mode::Running }
    }

    /// Read the two bytes at the program counter and compose them big-endian
    /// into an instruction word. Does not advance the program counter.
    pub fn fetch_opcode(&self, ram: &RAM) -> (r: u16)
        requires
            ram.wf(),
            self.program_counter + 1 < 4096,
        ensures
            r == spec_fetch(ram.ram@, self.program_counter as int),
    {
        let hi = ram.read(self.program_counter);
        let lo = ram.read(self.program_counter + 1);
        let r = (hi as u16) << 8 | lo as u16;
        proof {
            assert((hi as u16) << 8 | lo as u16 == hi as u16 * 256 + lo as u16) by (bit_vector);
        }
        r
    }

    /// Clear screen: every framebuffer cell off, dirty flag set, program
    /// counter advanced.
    pub fn clear_screen(&mut self, display: &mut Display)
        requires
            old(self).wf(),
            old(self).program_counter + 2 <= 0xFFFF,
        ensures
            final(self).wf(),
            final(display).wf(),
            forall|p: int| 0 <= p < 2048 ==> !final(display).pixels@[p],
            final(display).draw_flag,
            final(self).registers@ == old(self).registers@,
            advances_pc(*old(self), *final(self)),
            keeps_index_stack_mode(*old(self), *final(self)),
    {
        display.clear();
        display.set_draw_flag(true);
        self.program_counter = self.program_counter + 2;
    }

    /// Return: pop the saved address into the program counter, then advance
    /// past the call instruction it points at.
    pub fn return_from_subroutine(&mut self)
        requires
            old(self).wf(),
            old(self).stack@.len() > 0,
        ensures
            final(self).wf(),
            final(self).program_counter == old(self).stack@.last() + 2,
            final(self).stack@ == old(self).stack@.drop_last(),
            final(self).registers@ == old(self).registers@,
            final(self).index_register == old(self).index_register,
            final(self).mode == old(self).mode,
    {
        let top = self.stack.pop().unwrap();
        self.program_counter = top + 2;
        proof {
            assert(final(self).stack@ =~= old(self).stack@.drop_last());
        }
    }

    /// Jump: set the program counter to the 12-bit address, with no advance.
    pub fn jump_to_address(&mut self, nnn: u16)
        requires
            old(self).wf(),
        ensures
            final(self).wf(),
            final(self).program_counter == nnn,
            final(self).registers@ == old(self).registers@,
            keeps_index_stack_mode(*old(self), *final(self)),
    {
        self.program_counter = nnn;
    }

    /// Call: push the current program counter, then jump to the 12-bit
    /// address.
    pub fn call_subroutine(&mut self, nnn: u16)
        requires
            old(self).wf(),
            old(self).stack@.len() < 16,
            old(self).program_counter < 4096,
        ensures
            final(self).wf(),
            final(self).stack@ == old(self).stack@.push(old(self).program_counter),
            final(self).program_counter == nnn,
            final(self).registers@ == old(self).registers@,
            final(self).index_register == old(self).index_register,
            final(self).mode == old(self).mode,
    {
        self.stack.push(self.program_counter);
        self.program_counter = nnn;
    }

    /// Skip-equal-immediate: advance by 4 when the register equals the
    /// immediate, else by 2.
    pub fn skip_if_equal(&mut self, x: u8, nn: u8)
        requires
            old(self).wf(),
            x < 16,
            old(self).program_counter + 4 <= 0xFFFF,
        ensures
            final(self).wf(),
            final(self).program_counter == old(self).program_counter + (
            if old(self).registers@[x as int] == nn {
                4int
            } else {
                2int
            }),
            final(self).registers@ == old(self).registers@,
            keeps_index_stack_mode(*old(self), *final(self)),
    {
        if self.registers[x as usize] == nn {
            self.program_counter = self.program_counter + 4;
        } else {
            self.program_counter = self.program_counter + 2;
        }
    }

    /// Skip-not-equal-immediate: advance by 4 when the register differs from
    /// the immediate, else by 2.
    pub fn skip_if_not_equal(&mut self, x: u8, nn: u8)
        requires
            old(self).wf(),
            x < 16,
            old(self).program_counter + 4 <= 0xFFFF,
        ensures
            final(self).wf(),
            final(self).program_counter == old(self).program_counter + (
            if old(self).registers@[x as int] != nn {
                4int
            } else {
                2int
            }),
            final(self).registers@ == old(self).registers@,
            keeps_index_stack_mode(*old(self), *final(self)),
    {
        if self.registers[x as usize] != nn {
            self.program_counter = self.program_counter + 4;
        } else {
            self.program_counter = self.program_counter + 2;
        }
    }

    /// Skip-equal-register: advance by 4 when the two registers are equal,
    /// else by 2.
    pub fn skip_if_equal_register(&mut self, x: u8, y: u8)
        requires
            old(self).wf(),
            x < 16,
            y < 16,
            old(self).program_counter + 4 <= 0xFFFF,
        ensures
            final(self).wf(),
            final(self).program_counter == old(self).program_counter + (
            if old(self).registers@[x as int] == old(self).registers@[y as int] {
                4int
            } else {
                2int
            }),
            final(self).registers@ == old(self).registers@,
            keeps_index_stack_mode(*old(self), *final(self)),
    {
        if self.registers[x as usize] == self.registers[y as usize] {
            self.program_counter = self.program_counter + 4;
        } else {
            self.program_counter = self.program_counter + 2;
        }
    }

    /// Skip-not-equal-register: advance by 4 when the two registers differ,
    /// else by 2.
    pub fn skip_if_not_equal_register(&mut self, x: u8, y: u8)
        requires
            old(self).wf(),
            x < 16,
            y < 16,
            old(self).program_counter + 4 <= 0xFFFF,
        ensures
            final(self).wf(),
            final(self).program_counter == old(self).program_counter + (
            if old(self).registers@[x as int] != old(self).registers@[y as int] {
                4int
            } else {
                2int
            }),
            final(self).registers@ == old(self).registers@,
            keeps_index_stack_mode(*old(self), *final(self)),
    {
        if self.registers[x as usize] != self.registers[y as usize] {
            self.program_counter = self.program_counter + 4;
        } else {
            self.program_counter = self.program_counter + 2;
        }
    }

    /// Set-register-immediate: direct assignment, no flag side effect.
    pub fn set_register(&mut self, x: u8, nn: u8)
        requires
            old(self).wf(),
            x < 16,
            old(self).program_counter + 2 <= 0xFFFF,
        ensures
            final(self).wf(),
            final(self).registers@ == old(self).registers@.update(x as int, nn),
            advances_pc(*old(self), *final(self)),
            keeps_index_stack_mode(*old(self), *final(self)),
    {
        self.registers.set(x as usize, nn);
        self.program_counter = self.program_counter + 2;
    }

    /// Add-immediate: wrapping (modulo-256) add, no flag side effect.
    pub fn add_to_register(&mut self, x: u8, nn: u8)
        requires
            old(self).wf(),
            x < 16,
            old(self).program_counter + 2 <= 0xFFFF,
        ensures
            final(self).wf(),
            final(self).registers@ == old(self).registers@.update(
                x as int,
                wrap_add(old(self).registers@[x as int], nn),
            ),
            advances_pc(*old(self), *final(self)),
            keeps_index_stack_mode(*old(self), *final(self)),
    {
        let a = self.registers[x as usize];
        let sum: u16 = a as u16 + nn as u16;
        let v: u8 = if sum > 255 {
            (sum - 256) as u8
        } else {
            sum as u8
        };
        self.registers.set(x as usize, v);
        self.program_counter = self.program_counter + 2;
    }

    /// Register copy.
    pub fn set_register_register(&mut self, x: u8, y: u8)
        requires
            old(self).wf(),
            x < 16,
            y < 16,
            old(self).program_counter + 2 <= 0xFFFF,
        ensures
            final(self).wf(),
            final(self).registers@ == old(self).registers@.update(
                x as int,
                old(self).registers@[y as int],
            ),
            advances_pc(*old(self), *final(self)),
            keeps_index_stack_mode(*old(self), *final(self)),
    {
        let v = self.registers[y as usize];
        self.registers.set(x as usize, v);
        self.program_counter = self.program_counter + 2;
    }

    /// Bitwise OR into the first operand register.
    pub fn set_register_or(&mut self, x: u8, y: u8)
        requires
            old(self).wf(),
            x < 16,
            y < 16,
            old(self).program_counter + 2 <= 0xFFFF,
        ensures
            final(self).wf(),
            final(self).registers@ == old(self).registers@.update(
                x as int,
                old(self).registers@[x as int] | old(self).registers@[y as int],
            ),
            advances_pc(*old(self), *final(self)),
            keeps_index_stack_mode(*old(self), *final(self)),
    {
        let v = self.registers[x as usize] | self.registers[y as usize];
        self.registers.set(x as usize, v);
        self.program_counter = self.program_counter + 2;
    }

    /// Bitwise AND into the first operand register.
    pub fn set_register_and(&mut self, x: u8, y: u8)
        requires
            old(self).wf(),
            x < 16,
            y < 16,
            old(self).program_counter + 2 <= 0xFFFF,
        ensures
            final(self).wf(),
            final(self).registers@ == old(self).registers@.update(
                x as int,
                old(self).registers@[x as int] & old(self).registers@[y as int],
            ),
            advances_pc(*old(self), *final(self)),
            keeps_index_stack_mode(*old(self), *final(self)),
    {
        let v = self.registers[x as usize] & self.registers[y as usize];
        self.registers.set(x as usize, v);
        self.program_counter = self.program_counter + 2;
    }

    /// Bitwise XOR into the first operand register.
    pub fn set_register_xor(&mut self, x: u8, y: u8)
        requires
            old(self).wf(),
            x < 16,
            y < 16,
            old(self).program_counter + 2 <= 0xFFFF,
        ensures
            final(self).wf(),
            final(self).registers@ == old(self).registers@.update(
                x as int,
                old(self).registers@[x as int] ^ old(self).registers@[y as int],
            ),
            advances_pc(*old(self), *final(self)),
            keeps_index_stack_mode(*old(self), *final(self)),
    {
        let v = self.registers[x as usize] ^ self.registers[y as usize];
        self.registers.set(x as usize, v);
        self.program_counter = self.program_counter + 2;
    }

    /// Register-register add: wrapping sum into the first operand, flag
    /// register set to 1 exactly when the unsigned sum overflowed 8 bits.
    pub fn add_register_register(&mut self, x: u8, y: u8)
        requires
            old(self).wf(),
            x < 16,
            y < 16,
            old(self).program_counter + 2 <= 0xFFFF,
        ensures
            final(self).wf(),
            final(self).registers@ == old(self).registers@.update(
                x as int,
                wrap_add(old(self).registers@[x as int], old(self).registers@[y as int]),
            ).update(
                15,
                if old(self).registers@[x as int] + old(self).registers@[y as int] > 255 {
                    1u8
                } else {
                    0u8
                },
            ),
            advances_pc(*old(self), *final(self)),
            keeps_index_stack_mode(*old(self), *final(self)),
    {
        let a = self.registers[x as usize];
        let b = self.registers[y as usize];
        let sum: u16 = a as u16 + b as u16;
        let v: u8 = if sum > 255 {
            (sum - 256) as u8
        } else {
            sum as u8
        };
        let flag: u8 = if sum > 255 {
            1
        } else {
            0
        };
        self.registers.set(x as usize, v);
        self.registers.set(15, flag);
        self.program_counter = self.program_counter + 2;
    }

    /// Register-register subtract: wrapping difference into the first
    /// operand, flag register set to 1 exactly when NO borrow occurred
    /// (first operand at least the second).
    pub fn sub_register_register(&mut self, x: u8, y: u8)
        requires
            old(self).wf(),
            x < 16,
            y < 16,
            old(self).program_counter + 2 <= 0xFFFF,
        ensures
            final(self).wf(),
            final(self).registers@ == old(self).registers@.update(
                x as int,
                wrap_sub(old(self).registers@[x as int], old(self).registers@[y as int]),
            ).update(
                15,
                if old(self).registers@[x as int] >= old(self).registers@[y as int] {
                    1u8
                } else {
                    0u8
                },
            ),
            advances_pc(*old(self), *final(self)),
            keeps_index_stack_mode(*old(self), *final(self)),
    {
        let a = self.registers[x as usize];
        let b = self.registers[y as usize];
        let v: u8 = if a >= b {
            a - b
        } else {
            ((a as u16 + 256) - b as u16) as u8
        };
        let flag: u8 = if a >= b {
            1
        } else {
            0
        };
        self.registers.set(x as usize, v);
        self.registers.set(15, flag);
        self.program_counter = self.program_counter + 2;
    }

    /// Register-register subtract-reverse: second operand minus first, same
    /// borrow convention, result into the first operand register.
    pub fn sub_register_register_reverse(&mut self, x: u8, y: u8)
        requires
            old(self).wf(),
            x < 16,
            y < 16,
            old(self).program_counter + 2 <= 0xFFFF,
        ensures
            final(self).wf(),
            final(self).registers@ == old(self).registers@.update(
                x as int,
                wrap_sub(old(self).registers@[y as int], old(self).registers@[x as int]),
            ).update(
                15,
                if old(self).registers@[y as int] >= old(self).registers@[x as int] {
                    1u8
                } else {
                    0u8
                },
            ),
            advances_pc(*old(self), *final(self)),
            keeps_index_stack_mode(*old(self), *final(self)),
    {
        let a = self.registers[x as usize];
        let b = self.registers[y as usize];
        let v: u8 = if b >= a {
            b - a
        } else {
            ((b as u16 + 256) - a as u16) as u8
        };
        let flag: u8 = if b >= a {
            1
        } else {
            0
        };
        self.registers.set(x as usize, v);
        self.registers.set(15, flag);
        self.program_counter = self.program_counter + 2;
    }

    /// Shift right: the flag register takes the operand's low bit first,
    /// then the operand register is halved. When the operand is the flag
    /// register itself, the captured bit is what gets halved.
    pub fn shift_right(&mut self, x: u8)
        requires
            old(self).wf(),
            x < 16,
            old(self).program_counter + 2 <= 0xFFFF,
        ensures
            final(self).wf(),
            final(self).registers@ == ({
                let mid = old(self).registers@.update(15, old(self).registers@[x as int] % 2);
                mid.update(x as int, mid[x as int] / 2)
            }),
            advances_pc(*old(self), *final(self)),
            keeps_index_stack_mode(*old(self), *final(self)),
    {
        let v = self.registers[x as usize];
        let flag = v & 1;
        proof {
            assert(v & 1 == v % 2) by (bit_vector);
        }
        self.registers.set(15, flag);
        let cur = self.registers[x as usize];
        proof {
            assert(cur >> 1 == cur / 2) by (bit_vector);
        }
        self.registers.set(x as usize, cur >> 1);
        self.program_counter = self.program_counter + 2;
    }

    /// Shift left: the flag register takes the operand's high bit first,
    /// then the operand register is doubled modulo 256. When the operand is
    /// the flag register itself, the captured bit is what gets doubled.
    pub fn shift_left(&mut self, x: u8)
        requires
            old(self).wf(),
            x < 16,
            old(self).program_counter + 2 <= 0xFFFF,
        ensures
            final(self).wf(),
            final(self).registers@ == ({
                let mid = old(self).registers@.update(15, old(self).registers@[x as int] / 128);
                mid.update(x as int, ((2 * mid[x as int]) % 256) as u8)
            }),
            advances_pc(*old(self), *final(self)),
            keeps_index_stack_mode(*old(self), *final(self)),
    {
        let v = self.registers[x as usize];
        let flag = v >> 7;
        proof {
            assert(v >> 7 == v / 128) by (bit_vector);
        }
        self.registers.set(15, flag);
        let cur = self.registers[x as usize];
        proof {
            assert(cur << 1 == ((2 * cur) % 256) as u8) by (bit_vector);
        }
        self.registers.set(x as usize, cur << 1);
        self.program_counter = self.program_counter + 2;
    }

    /// Set the index register to a 12-bit address literal.
    pub fn set_index_register(&mut self, nnn: u16)
        requires
            old(self).wf(),
            old(self).program_counter + 2 <= 0xFFFF,
        ensures
            final(self).wf(),
            final(self).index_register == nnn,
            final(self).registers@ == old(self).registers@,
            advances_pc(*old(self), *final(self)),
            final(self).stack@ == old(self).stack@,
            final(self).mode == old(self).mode,
    {
        self.index_register = nnn;
        self.program_counter = self.program_counter + 2;
    }

    /// Jump-with-offset: program counter takes the 12-bit address plus
    /// register 0, with no advance.
    pub fn jump_to_address_plus_register(&mut self, nnn: u16)
        requires
            old(self).wf(),
            nnn < 4096,
        ensures
            final(self).wf(),
            final(self).program_counter == nnn + old(self).registers@[0],
            final(self).registers@ == old(self).registers@,
            keeps_index_stack_mode(*old(self), *final(self)),
    {
        self.program_counter = nnn + self.registers[0] as u16;
    }

    /// Random-AND: the register takes a fresh random byte masked by the
    /// immediate; no flag side effect. Nothing more is known of the byte,
    /// so the contract promises the transition for some byte only.
    pub fn set_register_random(&mut self, x: u8, nn: u8)
        requires
            old(self).wf(),
            x < 16,
            old(self).program_counter + 2 <= 0xFFFF,
        ensures
            final(self).wf(),
            exists|rb: u8|
                final(self).registers@ == #[trigger] old(self).registers@.update(
                    x as int,
                    rb & nn,
                ),
            advances_pc(*old(self), *final(self)),
            keeps_index_stack_mode(*old(self), *final(self)),
    {
        let rb = random_byte();
        self.registers.set(x as usize, rb & nn);
        self.program_counter = self.program_counter + 2;
        proof {
            assert(final(self).registers@ == old(self).registers@.update(x as int, rb & nn));
        }
    }

    /// Draw sprite: XOR the `n` memory bytes at the index register onto the
    /// framebuffer at the coordinates held by the two operand registers,
    /// wrapping at the screen edges; the flag register records whether any
    /// lit cell was turned off, and the dirty flag is set.
    pub fn draw_sprite(&mut self, x: u8, y: u8, n: u8, ram: &RAM, display: &mut Display)
        requires
            old(self).wf(),
            ram.wf(),
            old(display).wf(),
            x < 16,
            y < 16,
            n < 16,
            old(self).index_register + n <= 4096,
            old(self).program_counter + 2 <= 0xFFFF,
        ensures
            final(self).wf(),
            final(display).wf(),
            ({
                let i = old(self).index_register as int;
                let spr = ram.ram@.subrange(i, i + n);
                let vx = old(self).registers@[x as int];
                let vy = old(self).registers@[y as int];
                let collided = exists|p: int|
                    0 <= p < 2048 && old(display).pixels@[p] && #[trigger] sprite_covers(
                        vx,
                        vy,
                        spr,
                        p,
                    );
                &&& forall|p: int|
                    0 <= p < 2048 ==> final(display).pixels@[p] == (old(display).pixels@[p]
                        != sprite_covers(vx, vy, spr, p))
                &&& final(display).draw_flag
                &&& final(self).registers@ == old(self).registers@.update(
                    15,
                    if collided {
                        1u8
                    } else {
                        0u8
                    },
                )
            }),
            advances_pc(*old(self), *final(self)),
            keeps_index_stack_mode(*old(self), *final(self)),
    {
        let sprite = read_block(ram, self.index_register, n);
        let vx = self.registers[x as usize];
        let vy = self.registers[y as usize];
        let collision = display.draw(vx, vy, &sprite);
        display.set_draw_flag(true);
        self.registers.set(15, if collision { 1 } else { 0 });
        self.program_counter = self.program_counter + 2;
    }

    /// Skip-if-key-pressed: advance by 4 when the key selected by the
    /// register is pressed, else by 2. A register value outside the 16 keys
    /// selects no key.
    pub fn skip_if_key_pressed(&mut self, x: u8, keys: &Keypad)
        requires
            old(self).wf(),
            keys.wf(),
            x < 16,
            old(self).program_counter + 4 <= 0xFFFF,
        ensures
            final(self).wf(),
            final(self).program_counter == old(self).program_counter + (
            if key_pressed(*keys, old(self).registers@[x as int]) {
                4int
            } else {
                2int
            }),
            final(self).registers@ == old(self).registers@,
            keeps_index_stack_mode(*old(self), *final(self)),
    {
        let v = self.registers[x as usize];
        if keys.is_pressed(v) {
            self.program_counter = self.program_counter + 4;
        } else {
            self.program_counter = self.program_counter + 2;
        }
    }

    /// Skip-if-key-not-pressed: advance by 4 when the key selected by the
    /// register is not pressed, else by 2.
    pub fn skip_if_key_not_pressed(&mut self, x: u8, keys: &Keypad)
        requires
            old(self).wf(),
            keys.wf(),
            x < 16,
            old(self).program_counter + 4 <= 0xFFFF,
        ensures
            final(self).wf(),
            final(self).program_counter == old(self).program_counter + (
            if !key_pressed(*keys, old(self).registers@[x as int]) {
                4int
            } else {
                2int
            }),
            final(self).registers@ == old(self).registers@,
            keeps_index_stack_mode(*old(self), *final(self)),
    {
        let v = self.registers[x as usize];
        if !keys.is_pressed(v) {
            self.program_counter = self.program_counter + 4;
        } else {
            self.program_counter = self.program_counter + 2;
        }
    }

    /// Read delay timer into the register.
    pub fn set_register_delay_timer(&mut self, x: u8, timer: &Timer)
        requires
            old(self).wf(),
            x < 16,
            old(self).program_counter + 2 <= 0xFFFF,
        ensures
            final(self).wf(),
            final(self).registers@ == old(self).registers@.update(x as int, timer.delay_timer),
            advances_pc(*old(self), *final(self)),
            keeps_index_stack_mode(*old(self), *final(self)),
    {
        let v = timer.read_delay_timer();
        self.registers.set(x as usize, v);
        self.program_counter = self.program_counter + 2;
    }

    /// Wait for key press: suspend the instruction stream by entering the
    /// awaiting-a-key mode; the program counter stays on this instruction
    /// until a later step resolves the wait.
    pub fn wait_for_key_press(&mut self, x: u8)
        requires
            old(self).wf(),
            x < 16,
        ensures
            final(self).wf(),
            final(self).mode == Mode::AwaitingKey(x),
            final(self).registers@ == old(self).registers@,
            final(self).program_counter == old(self).program_counter,
            final(self).index_register == old(self).index_register,
            final(self).stack@ == old(self).stack@,
    {
        self.mode = Mode::AwaitingKey(x);
    }

    /// Resolve the awaiting-a-key mode against a key snapshot: with no key
    /// pressed nothing changes; otherwise the lowest pressed key index lands
    /// in register `x` and execution resumes past the wait instruction.
    pub fn resolve_key_wait(&mut self, x: u8, keys: &Keypad)
        requires
            old(self).wf(),
            keys.wf(),
            x < 16,
            old(self).program_counter + 2 <= 0xFFFF,
        ensures
            final(self).wf(),
            key_wait_step(*old(self), *final(self), x, *keys),
    {
        match keys.first_pressed() {
            Some(k) => {
                self.registers.set(x as usize, k);
                self.program_counter = self.program_counter + 2;
                self.mode = Mode::Running;
            },
            None => {},
        }
    }

    /// Set the delay timer from the register.
    pub fn set_delay_timer_register(&mut self, x: u8, timer: &mut Timer)
        requires
            old(self).wf(),
            x < 16,
            old(self).program_counter + 2 <= 0xFFFF,
        ensures
            final(self).wf(),
            final(timer).delay_timer == old(self).registers@[x as int],
            final(timer).sound_timer == old(timer).sound_timer,
            final(self).registers@ == old(self).registers@,
            advances_pc(*old(self), *final(self)),
            keeps_index_stack_mode(*old(self), *final(self)),
    {
        let v = self.registers[x as usize];
        timer.set_delay_timer(v);
        self.program_counter = self.program_counter + 2;
    }

    /// Set the sound timer from the register.
    pub fn set_sound_timer_register(&mut self, x: u8, timer: &mut Timer)
        requires
            old(self).wf(),
            x < 16,
            old(self).program_counter + 2 <= 0xFFFF,
        ensures
            final(self).wf(),
            final(timer).sound_timer == old(self).registers@[x as int],
            final(timer).delay_timer == old(timer).delay_timer,
            final(self).registers@ == old(self).registers@,
            advances_pc(*old(self), *final(self)),
            keeps_index_stack_mode(*old(self), *final(self)),
    {
        let v = self.registers[x as usize];
        timer.set_sound_timer(v);
        self.program_counter = self.program_counter + 2;
    }

    /// Add the register into the index register: a 16-bit wrapping add with
    /// no flag side effect.
    pub fn add_index_register_register(&mut self, x: u8)
        requires
            old(self).wf(),
            x < 16,
            old(self).program_counter + 2 <= 0xFFFF,
        ensures
            final(self).wf(),
            final(self).index_register == (old(self).index_register
                + old(self).registers@[x as int]) % 0x10000,
            final(self).registers@ == old(self).registers@,
            advances_pc(*old(self), *final(self)),
            final(self).stack@ == old(self).stack@,
            final(self).mode == old(self).mode,
    {
        let v = self.registers[x as usize];
        let sum: u32 = self.index_register as u32 + v as u32;
        self.index_register = if sum > 0xFFFF {
            (sum - 0x10000) as u16
        } else {
            sum as u16
        };
        self.program_counter = self.program_counter + 2;
    }

    /// Set the index register to the font glyph address for the register
    /// value: glyphs are 5 bytes each, in order from address 0.
    pub fn set_index_register_sprite(&mut self, x: u8)
        requires
            old(self).wf(),
            x < 16,
            old(self).program_counter + 2 <= 0xFFFF,
        ensures
            final(self).wf(),
            final(self).index_register == old(self).registers@[x as int] * 5,
            final(self).registers@ == old(self).registers@,
            advances_pc(*old(self), *final(self)),
            final(self).stack@ == old(self).stack@,
            final(self).mode == old(self).mode,
    {
        let v = self.registers[x as usize];
        self.index_register = v as u16 * 5;
        self.program_counter = self.program_counter + 2;
    }

    /// Store BCD: the register value's hundreds, tens and ones digits go to
    /// memory at the index register and the two addresses after it.
    pub fn store_bcd(&mut self, x: u8, ram: &mut RAM)
        requires
            old(self).wf(),
            old(ram).wf(),
            x < 16,
            old(self).index_register + 2 < 4096,
            old(self).program_counter + 2 <= 0xFFFF,
        ensures
            final(self).wf(),
            final(ram).wf(),
            ({
                let i = old(self).index_register as int;
                let v = old(self).registers@[x as int];
                final(ram).ram@ == old(ram).ram@.update(i, v / 100).update(
                    i + 1,
                    (v / 10) % 10,
                ).update(i + 2, v % 10)
            }),
            final(self).registers@ == old(self).registers@,
            advances_pc(*old(self), *final(self)),
            keeps_index_stack_mode(*old(self), *final(self)),
    {
        let v = self.registers[x as usize];
        ram.write(self.index_register, v / 100);
        ram.write(self.index_register + 1, (v / 10) % 10);
        ram.write(self.index_register + 2, v % 10);
        self.program_counter = self.program_counter + 2;
    }

    /// Store registers 0 through `x` inclusive into memory starting at the
    /// index register, in ascending register order.
    pub fn store_registers(&mut self, x: u8, ram: &mut RAM)
        requires
            old(self).wf(),
            old(ram).wf(),
            x < 16,
            old(self).index_register + x < 4096,
            old(self).program_counter + 2 <= 0xFFFF,
        ensures
            final(self).wf(),
            final(ram).wf(),
            forall|j: int|
                0 <= j <= x ==> final(ram).ram@[old(self).index_register + j] == old(
                    self,
                ).registers@[j],
            forall|j: int|
                (0 <= j < old(self).index_register || old(self).index_register + x < j < 4096)
                    ==> final(ram).ram@[j] == old(ram).ram@[j],
            final(self).registers@ == old(self).registers@,
            advances_pc(*old(self), *final(self)),
            keeps_index_stack_mode(*old(self), *final(self)),
    {
        let i = self.index_register;
        let mut j: u16 = 0;
        while j <= x as u16
            invariant
                self.wf(),
                ram.wf(),
                x < 16,
                j <= x + 1,
                i + x < 4096,
                forall|q: int| 0 <= q < j ==> ram.ram@[i + q] == self.registers@[q],
                forall|q: int|
                    (0 <= q < i || i + j <= q < 4096) ==> ram.ram@[q] == old(ram).ram@[q],
            decreases x + 1 - j,
        {
            let b = self.registers[j as usize];
            ram.write(i + j, b);
            j = j + 1;
        }
        self.program_counter = self.program_counter + 2;
    }

    /// Load registers 0 through `x` inclusive from memory starting at the
    /// index register; higher registers keep their values.
    pub fn load_registers(&mut self, x: u8, ram: &RAM)
        requires
            old(self).wf(),
            ram.wf(),
            x < 16,
            old(self).index_register + x < 4096,
            old(self).program_counter + 2 <= 0xFFFF,
        ensures
            final(self).wf(),
            forall|j: int|
                0 <= j <= x ==> final(self).registers@[j] == ram.ram@[old(self).index_register
                    + j],
            forall|j: int| x < j < 16 ==> final(self).registers@[j] == old(self).registers@[j],
            final(self).registers@.len() == 16,
            advances_pc(*old(self), *final(self)),
            keeps_index_stack_mode(*old(self), *final(self)),
    {
        let i = self.index_register;
        let mut j: u16 = 0;
        while j <= x as u16
            invariant
                ram.wf(),
                x < 16,
                j <= x + 1,
                i + x < 4096,
                i == old(self).index_register,
                self.registers@.len() == 16,
                self.index_register == old(self).index_register,
                self.program_counter == old(self).program_counter,
                self.stack@ == old(self).stack@,
                self.mode == old(self).mode,
                forall|q: int| 0 <= q < j ==> self.registers@[q] == ram.ram@[i + q],
                forall|q: int| j <= q < 16 ==> self.registers@[q] == old(self).registers@[q],
            decreases x + 1 - j,
        {
            let b = ram.read(i + j);
            self.registers.set(j as usize, b);
            j = j + 1;
        }
        self.program_counter = self.program_counter + 2;
    }
}

/// The first operand register selector: bits 8..12 of the word.
pub open spec fn op_x(op: u16) -> u8 {
    ((op >> 8) & 0xF) as u8
}

/// The second operand register selector: bits 4..8 of the word.
pub open spec fn op_y(op: u16) -> u8 {
    ((op >> 4) & 0xF) as u8
}

/// The 8-bit immediate: the low byte of the word.
pub open spec fn op_nn(op: u16) -> u8 {
    (op & 0xFF) as u8
}

/// The 12-bit address: the low 12 bits of the word.
pub open spec fn op_nnn(op: u16) -> u16 {
    op & 0xFFF
}

/// The low nibble of the word: the sprite height of the draw instruction.
pub open spec fn op_n(op: u16) -> u8 {
    (op & 0xF) as u8
}

fn x_of(op: u16) -> (r: u8)
    ensures
        r == op_x(op),
        r < 16,
{
    proof {
        assert(((op >> 8) & 0xF) < 16) by (bit_vector);
    }
    ((op >> 8) & 0xF) as u8
}

fn y_of(op: u16) -> (r: u8)
    ensures
        r == op_y(op),
        r < 16,
{
    proof {
        assert(((op >> 4) & 0xF) < 16) by (bit_vector);
    }
    ((op >> 4) & 0xF) as u8
}

fn nn_of(op: u16) -> (r: u8)
    ensures
        r == op_nn(op),
{
    (op & 0xFF) as u8
}

fn nnn_of(op: u16) -> (r: u16)
    ensures
        r == op_nnn(op),
        r < 4096,
{
    proof {
        assert((op & 0xFFF) < 4096) by (bit_vector);
    }
    op & 0xFFF
}

fn n_of(op: u16) -> (r: u8)
    ensures
        r == op_n(op),
        r < 16,
{
    proof {
        assert((op & 0xF) < 16) by (bit_vector);
    }
    (op & 0xF) as u8
}

/// A decoded instruction: the operation family together with its operands,
/// extracted from the 16-bit word by pure bit selection.
#[derive(Clone, Copy, Debug, PartialEq, Eq, Structural)]
pub enum Instruction {
    ClearScreen,
    Return,
    Jump(u16),
    Call(u16),
    SkipEqImm(u8, u8),
    SkipNeImm(u8, u8),
    SkipEqReg(u8, u8),
    SetImm(u8, u8),
    AddImm(u8, u8),
    CopyReg(u8, u8),
    OrReg(u8, u8),
    AndReg(u8, u8),
    XorReg(u8, u8),
    AddReg(u8, u8),
    SubReg(u8, u8),
    ShiftRight(u8),
    SubRevReg(u8, u8),
    ShiftLeft(u8),
    SkipNeReg(u8, u8),
    SetIndex(u16),
    JumpOffset(u16),
    RandomAnd(u8, u8),
    Draw(u8, u8, u8),
    SkipKey(u8),
    SkipNoKey(u8),
    ReadDelay(u8),
    WaitKey(u8),
    SetDelay(u8),
    SetSound(u8),
    AddIndex(u8),
    FontIndex(u8),
    StoreBcd(u8),
    StoreRegs(u8),
    LoadRegs(u8),
    Unknown,
}

/// Register selectors are 4 bits and addresses 12, so every decoded operand
/// names a real register or memory address.
pub open spec fn instr_wf(i: Instruction) -> bool {
    match i {
        Instruction::Jump(nnn) => nnn < 4096,
        Instruction::Call(nnn) => nnn < 4096,
        Instruction::SkipEqImm(x, _) => x < 16,
        Instruction::SkipNeImm(x, _) => x < 16,
        Instruction::SkipEqReg(x, y) => x < 16 && y < 16,
        Instruction::SetImm(x, _) => x < 16,
        Instruction::AddImm(x, _) => x < 16,
        Instruction::CopyReg(x, y) => x < 16 && y < 16,
        Instruction::OrReg(x, y) => x < 16 && y < 16,
        Instruction::AndReg(x, y) => x < 16 && y < 16,
        Instruction::XorReg(x, y) => x < 16 && y < 16,
        Instruction::AddReg(x, y) => x < 16 && y < 16,
        Instruction::SubReg(x, y) => x < 16 && y < 16,
        Instruction::ShiftRight(x) => x < 16,
        Instruction::SubRevReg(x, y) => x < 16 && y < 16,
        Instruction::ShiftLeft(x) => x < 16,
        Instruction::SkipNeReg(x, y) => x < 16 && y < 16,
        Instruction::SetIndex(nnn) => nnn < 4096,
        Instruction::JumpOffset(nnn) => nnn < 4096,
        Instruction::RandomAnd(x, _) => x < 16,
        Instruction::Draw(x, y, n) => x < 16 && y < 16 && n < 16,
        Instruction::SkipKey(x) => x < 16,
        Instruction::SkipNoKey(x) => x < 16,
        Instruction::ReadDelay(x) => x < 16,
        Instruction::WaitKey(x) => x < 16,
        Instruction::SetDelay(x) => x < 16,
        Instruction::SetSound(x) => x < 16,
        Instruction::AddIndex(x) => x < 16,
        Instruction::FontIndex(x) => x < 16,
        Instruction::StoreBcd(x) => x < 16,
        Instruction::StoreRegs(x) => x < 16,
        Instruction::LoadRegs(x) => x < 16,
        _ => true,
    }
}

/// The two-level decode: the high nibble selects the family, and two
/// overloaded families dispatch further on a secondary selector.
pub open spec fn spec_decode(op: u16) -> Instruction {
    let family = op & 0xF000;
    if family == 0x0000 {
        let tail = op & 0x000F;
        if tail == 0x0 {
            Instruction::ClearScreen
        } else if tail == 0xE {
            Instruction::Return
        } else {
            Instruction::Unknown
        }
    } else if family == 0x1000 {
        Instruction::Jump(op_nnn(op))
    } else if family == 0x2000 {
        Instruction::Call(op_nnn(op))
    } else if family == 0x3000 {
        Instruction::SkipEqImm(op_x(op), op_nn(op))
    } else if family == 0x4000 {
        Instruction::SkipNeImm(op_x(op), op_nn(op))
    } else if family == 0x5000 {
        Instruction::SkipEqReg(op_x(op), op_y(op))
    } else if family == 0x6000 {
        Instruction::SetImm(op_x(op), op_nn(op))
    } else if family == 0x7000 {
        Instruction::AddImm(op_x(op), op_nn(op))
    } else if family == 0x8000 {
        let tail = op & 0x000F;
        if tail == 0x0 {
            Instruction::CopyReg(op_x(op), op_y(op))
        } else if tail == 0x1 {
            Instruction::OrReg(op_x(op), op_y(op))
        } else if tail == 0x2 {
            Instruction::AndReg(op_x(op), op_y(op))
        } else if tail == 0x3 {
            Instruction::XorReg(op_x(op), op_y(op))
        } else if tail == 0x4 {
            Instruction::AddReg(op_x(op), op_y(op))
        } else if tail == 0x5 {
            Instruction::SubReg(op_x(op), op_y(op))
        } else if tail == 0x6 {
            Instruction::ShiftRight(op_x(op))
        } else if tail == 0x7 {
            Instruction::SubRevReg(op_x(op), op_y(op))
        } else if tail == 0xE {
            Instruction::ShiftLeft(op_x(op))
        } else {
            Instruction::Unknown
        }
    } else if family == 0x9000 {
        Instruction::SkipNeReg(op_x(op), op_y(op))
    } else if family == 0xA000 {
        Instruction::SetIndex(op_nnn(op))
    } else if family == 0xB000 {
        Instruction::JumpOffset(op_nnn(op))
    } else if family == 0xC000 {
        Instruction::RandomAnd(op_x(op), op_nn(op))
    } else if family == 0xD000 {
        Instruction::Draw(op_x(op), op_y(op), op_n(op))
    } else if family == 0xE000 {
        let tail = op & 0x000F;
        if tail == 0xE {
            Instruction::SkipKey(op_x(op))
        } else if tail == 0x1 {
            Instruction::SkipNoKey(op_x(op))
        } else {
            Instruction::Unknown
        }
    } else {
        let tail = op & 0x00FF;
        if tail == 0x07 {
            Instruction::ReadDelay(op_x(op))
        } else if tail == 0x0A {
            Instruction::WaitKey(op_x(op))
        } else if tail == 0x15 {
            Instruction::SetDelay(op_x(op))
        } else if tail == 0x18 {
            Instruction::SetSound(op_x(op))
        } else if tail == 0x1E {
            Instruction::AddIndex(op_x(op))
        } else if tail == 0x29 {
            Instruction::FontIndex(op_x(op))
        } else if tail == 0x33 {
            Instruction::StoreBcd(op_x(op))
        } else if tail == 0x55 {
            Instruction::StoreRegs(op_x(op))
        } else if tail == 0x65 {
            Instruction::LoadRegs(op_x(op))
        } else {
            Instruction::Unknown
        }
    }
}

/// Decode an instruction word by pure bit extraction; no side effects.
pub fn decode(op: u16) -> (r: Instruction)
    ensures
        r == spec_decode(op),
        instr_wf(r),
{
    let family = op & 0xF000;
    if family == 0x0000 {
        let tail = op & 0x000F;
        if tail == 0x0 {
            Instruction::ClearScreen
        } else if tail == 0xE {
            Instruction::Return
        } else {
            Instruction::Unknown
        }
    } else if family == 0x1000 {
        Instruction::Jump(nnn_of(op))
    } else if family == 0x2000 {
        Instruction::Call(nnn_of(op))
    } else if family == 0x3000 {
        Instruction::SkipEqImm(x_of(op), nn_of(op))
    } else if family == 0x4000 {
        Instruction::SkipNeImm(x_of(op), nn_of(op))
    } else if family == 0x5000 {
        Instruction::SkipEqReg(x_of(op), y_of(op))
    } else if family == 0x6000 {
        Instruction::SetImm(x_of(op), nn_of(op))
    } else if family == 0x7000 {
        Instruction::AddImm(x_of(op), nn_of(op))
    } else if family == 0x8000 {
        let tail = op & 0x000F;
        if tail == 0x0 {
            Instruction::CopyReg(x_of(op), y_of(op))
        } else if tail == 0x1 {
            Instruction::OrReg(x_of(op), y_of(op))
        } else if tail == 0x2 {
            Instruction::AndReg(x_of(op), y_of(op))
        } else if tail == 0x3 {
            Instruction::XorReg(x_of(op), y_of(op))
        } else if tail == 0x4 {
            Instruction::AddReg(x_of(op), y_of(op))
        } else if tail == 0x5 {
            Instruction::SubReg(x_of(op), y_of(op))
        } else if tail == 0x6 {
            Instruction::ShiftRight(x_of(op))
        } else if tail == 0x7 {
            Instruction::SubRevReg(x_of(op), y_of(op))
        } else if tail == 0xE {
            Instruction::ShiftLeft(x_of(op))
        } else {
            Instruction::Unknown
        }
    } else if family == 0x9000 {
        Instruction::SkipNeReg(x_of(op), y_of(op))
    } else if family == 0xA000 {
        Instruction::SetIndex(nnn_of(op))
    } else if family == 0xB000 {
        Instruction::JumpOffset(nnn_of(op))
    } else if family == 0xC000 {
        Instruction::RandomAnd(x_of(op), nn_of(op))
    } else if family == 0xD000 {
        Instruction::Draw(x_of(op), y_of(op), n_of(op))
    } else if family == 0xE000 {
        let tail = op & 0x000F;
        if tail == 0xE {
            Instruction::SkipKey(x_of(op))
        } else if tail == 0x1 {
            Instruction::SkipNoKey(x_of(op))
        } else {
            Instruction::Unknown
        }
    } else {
        let tail = op & 0x00FF;
        if tail == 0x07 {
            Instruction::ReadDelay(x_of(op))
        } else if tail == 0x0A {
            Instruction::WaitKey(x_of(op))
        } else if tail == 0x15 {
            Instruction::SetDelay(x_of(op))
        } else if tail == 0x18 {
            Instruction::SetSound(x_of(op))
        } else if tail == 0x1E {
            Instruction::AddIndex(x_of(op))
        } else if tail == 0x29 {
            Instruction::FontIndex(x_of(op))
        } else if tail == 0x33 {
            Instruction::StoreBcd(x_of(op))
        } else if tail == 0x55 {
            Instruction::StoreRegs(x_of(op))
        } else if tail == 0x65 {
            Instruction::LoadRegs(x_of(op))
        } else {
            Instruction::Unknown
        }
    }
}

/// Memory, framebuffer and timers are untouched.
pub open spec fn peripherals_unchanged(
    m0: Seq<u8>,
    m1: Seq<u8>,
    d0: Display,
    d1: Display,
    t0: Timer,
    t1: Timer,
) -> bool {
    &&& m1 == m0
    &&& d1.pixels@ == d0.pixels@
    &&& d1.draw_flag == d0.draw_flag
    &&& t1.delay_timer == t0.delay_timer
    &&& t1.sound_timer == t0.sound_timer
}

/// The complete effect of executing one decoded instruction against the
/// machine: how the core, memory, framebuffer and timers before the step
/// (`pre`, `m0`, `d0`, `t0`) relate to those after it, and exactly when the
/// step faults instead (in which case nothing changes).
pub open spec fn step_effects(
    pre: CPU,
    post: CPU,
    m0: Seq<u8>,
    m1: Seq<u8>,
    d0: Display,
    d1: Display,
    t0: Timer,
    t1: Timer,
    keys: Keypad,
    instr: Instruction,
    r: Result<(), Fault>,
) -> bool {
    match instr {
        Instruction::ClearScreen => {
            &&& r is Ok
            &&& m1 == m0
            &&& t1.delay_timer == t0.delay_timer && t1.sound_timer == t0.sound_timer
            &&& forall|p: int| 0 <= p < 2048 ==> !d1.pixels@[p]
            &&& d1.draw_flag
            &&& post.registers@ == pre.registers@
            &&& advances_pc(pre, post)
            &&& keeps_index_stack_mode(pre, post)
        },
        Instruction::Return => {
            if pre.stack@.len() > 0 {
                &&& r is Ok
                &&& peripherals_unchanged(m0, m1, d0, d1, t0, t1)
                &&& post.program_counter == pre.stack@.last() + 2
                &&& post.stack@ == pre.stack@.drop_last()
                &&& post.registers@ == pre.registers@
                &&& post.index_register == pre.index_register
                &&& post.mode == pre.mode
            } else {
                &&& r == Result::<(), Fault>::Err(Fault::StackUnderflow)
                &&& peripherals_unchanged(m0, m1, d0, d1, t0, t1)
                &&& cpu_unchanged(pre, post)
            }
        },
        Instruction::Jump(nnn) => {
            &&& r is Ok
            &&& peripherals_unchanged(m0, m1, d0, d1, t0, t1)
            &&& post.program_counter == nnn
            &&& post.registers@ == pre.registers@
            &&& keeps_index_stack_mode(pre, post)
        },
        Instruction::Call(nnn) => {
            if pre.stack@.len() < 16 {
                &&& r is Ok
                &&& peripherals_unchanged(m0, m1, d0, d1, t0, t1)
                &&& post.stack@ == pre.stack@.push(pre.program_counter)
                &&& post.program_counter == nnn
                &&& post.registers@ == pre.registers@
                &&& post.index_register == pre.index_register
                &&& post.mode == pre.mode
            } else {
                &&& r == Result::<(), Fault>::Err(Fault::StackOverflow)
                &&& peripherals_unchanged(m0, m1, d0, d1, t0, t1)
                &&& cpu_unchanged(pre, post)
            }
        },
        Instruction::SkipEqImm(x, nn) => {
            &&& r is Ok
            &&& peripherals_unchanged(m0, m1, d0, d1, t0, t1)
            &&& post.program_counter == pre.program_counter + (
            if pre.registers@[x as int] == nn {
                4int
            } else {
                2int
            })
            &&& post.registers@ == pre.registers@
            &&& keeps_index_stack_mode(pre, post)
        },
        Instruction::SkipNeImm(x, nn) => {
            &&& r is Ok
            &&& peripherals_unchanged(m0, m1, d0, d1, t0, t1)
            &&& post.program_counter == pre.program_counter + (
            if pre.registers@[x as int] != nn {
                4int
            } else {
                2int
            })
            &&& post.registers@ == pre.registers@
            &&& keeps_index_stack_mode(pre, post)
        },
        Instruction::SkipEqReg(x, y) => {
            &&& r is Ok
            &&& peripherals_unchanged(m0, m1, d0, d1, t0, t1)
            &&& post.program_counter == pre.program_counter + (
            if pre.registers@[x as int] == pre.registers@[y as int] {
                4int
            } else {
                2int
            })
            &&& post.registers@ == pre.registers@
            &&& keeps_index_stack_mode(pre, post)
        },
        Instruction::SkipNeReg(x, y) => {
            &&& r is Ok
            &&& peripherals_unchanged(m0, m1, d0, d1, t0, t1)
            &&& post.program_counter == pre.program_counter + (
            if pre.registers@[x as int] != pre.registers@[y as int] {
                4int
            } else {
                2int
            })
            &&& post.registers@ == pre.registers@
            &&& keeps_index_stack_mode(pre, post)
        },
        Instruction::SetImm(x, nn) => {
            &&& r is Ok
            &&& peripherals_unchanged(m0, m1, d0, d1, t0, t1)
            &&& post.registers@ == pre.registers@.update(x as int, nn)
            &&& advances_pc(pre, post)
            &&& keeps_index_stack_mode(pre, post)
        },
        Instruction::AddImm(x, nn) => {
            &&& r is Ok
            &&& peripherals_unchanged(m0, m1, d0, d1, t0, t1)
            &&& post.registers@ == pre.registers@.update(
                x as int,
                wrap_add(pre.registers@[x as int], nn),
            )
            &&& advances_pc(pre, post)
            &&& keeps_index_stack_mode(pre, post)
        },
        Instruction::CopyReg(x, y) => {
            &&& r is Ok
            &&& peripherals_unchanged(m0, m1, d0, d1, t0, t1)
            &&& post.registers@ == pre.registers@.update(x as int, pre.registers@[y as int])
            &&& advances_pc(pre, post)
            &&& keeps_index_stack_mode(pre, post)
        },
        Instruction::OrReg(x, y) => {
            &&& r is Ok
            &&& peripherals_unchanged(m0, m1, d0, d1, t0, t1)
            &&& post.registers@ == pre.registers@.update(
                x as int,
                pre.registers@[x as int] | pre.registers@[y as int],
            )
            &&& advances_pc(pre, post)
            &&& keeps_index_stack_mode(pre, post)
        },
        Instruction::AndReg(x, y) => {
            &&& r is Ok
            &&& peripherals_unchanged(m0, m1, d0, d1, t0, t1)
            &&& post.registers@ == pre.registers@.update(
                x as int,
                pre.registers@[x as int] & pre.registers@[y as int],
            )
            &&& advances_pc(pre, post)
            &&& keeps_index_stack_mode(pre, post)
        },
        Instruction::XorReg(x, y) => {
            &&& r is Ok
            &&& peripherals_unchanged(m0, m1, d0, d1, t0, t1)
            &&& post.registers@ == pre.registers@.update(
                x as int,
                pre.registers@[x as int] ^ pre.registers@[y as int],
            )
            &&& advances_pc(pre, post)
            &&& keeps_index_stack_mode(pre, post)
        },
        Instruction::AddReg(x, y) => {
            &&& r is Ok
            &&& peripherals_unchanged(m0, m1, d0, d1, t0, t1)
            &&& post.registers@ == pre.registers@.update(
                x as int,
                wrap_add(pre.registers@[x as int], pre.registers@[y as int]),
            ).update(
                15,
                if pre.registers@[x as int] + pre.registers@[y as int] > 255 {
                    1u8
                } else {
                    0u8
                },
            )
            &&& advances_pc(pre, post)
            &&& keeps_index_stack_mode(pre, post)
        },
        Instruction::SubReg(x, y) => {
            &&& r is Ok
            &&& peripherals_unchanged(m0, m1, d0, d1, t0, t1)
            &&& post.registers@ == pre.registers@.update(
                x as int,
                wrap_sub(pre.registers@[x as int], pre.registers@[y as int]),
            ).update(
                15,
                if pre.registers@[x as int] >= pre.registers@[y as int] {
                    1u8
                } else {
                    0u8
                },
            )
            &&& advances_pc(pre, post)
            &&& keeps_index_stack_mode(pre, post)
        },
        Instruction::ShiftRight(x) => {
            &&& r is Ok
            &&& peripherals_unchanged(m0, m1, d0, d1, t0, t1)
            &&& post.registers@ == ({
                let mid = pre.registers@.update(15, pre.registers@[x as int] % 2);
                mid.update(x as int, mid[x as int] / 2)
            })
            &&& advances_pc(pre, post)
            &&& keeps_index_stack_mode(pre, post)
        },
        Instruction::SubRevReg(x, y) => {
            &&& r is Ok
            &&& peripherals_unchanged(m0, m1, d0, d1, t0, t1)
            &&& post.registers@ == pre.registers@.update(
                x as int,
                wrap_sub(pre.registers@[y as int], pre.registers@[x as int]),
            ).update(
                15,
                if pre.registers@[y as int] >= pre.registers@[x as int] {
                    1u8
                } else {
                    0u8
                },
            )
            &&& advances_pc(pre, post)
            &&& keeps_index_stack_mode(pre, post)
        },
        Instruction::ShiftLeft(x) => {
            &&& r is Ok
            &&& peripherals_unchanged(m0, m1, d0, d1, t0, t1)
            &&& post.registers@ == ({
                let mid = pre.registers@.update(15, pre.registers@[x as int] / 128);
                mid.update(x as int, ((2 * mid[x as int]) % 256) as u8)
            })
            &&& advances_pc(pre, post)
            &&& keeps_index_stack_mode(pre, post)
        },
        Instruction::SetIndex(nnn) => {
            &&& r is Ok
            &&& peripherals_unchanged(m0, m1, d0, d1, t0, t1)
            &&& post.index_register == nnn
            &&& post.registers@ == pre.registers@
            &&& advances_pc(pre, post)
            &&& post.stack@ == pre.stack@
            &&& post.mode == pre.mode
        },
        Instruction::JumpOffset(nnn) => {
            &&& r is Ok
            &&& peripherals_unchanged(m0, m1, d0, d1, t0, t1)
            &&& post.program_counter == nnn + pre.registers@[0]
            &&& post.registers@ == pre.registers@
            &&& keeps_index_stack_mode(pre, post)
        },
        Instruction::RandomAnd(x, nn) => {
            &&& r is Ok
            &&& peripherals_unchanged(m0, m1, d0, d1, t0, t1)
            &&& exists|rb: u8|
                post.registers@ == #[trigger] pre.registers@.update(x as int, rb & nn)
            &&& advances_pc(pre, post)
            &&& keeps_index_stack_mode(pre, post)
        },
        Instruction::Draw(x, y, n) => {
            if pre.index_register + n <= 4096 {
                let i = pre.index_register as int;
                let spr = m0.subrange(i, i + n);
                let vx = pre.registers@[x as int];
                let vy = pre.registers@[y as int];
                let collided = exists|p: int|
                    0 <= p < 2048 && d0.pixels@[p] && #[trigger] sprite_covers(vx, vy, spr, p);
                &&& r is Ok
                &&& m1 == m0
                &&& t1.delay_timer == t0.delay_timer && t1.sound_timer == t0.sound_timer
                &&& forall|p: int|
                    0 <= p < 2048 ==> d1.pixels@[p] == (d0.pixels@[p] != sprite_covers(
                        vx,
                        vy,
                        spr,
                        p,
                    ))
                &&& d1.draw_flag
                &&& post.registers@ == pre.registers@.update(
                    15,
                    if collided {
                        1u8
                    } else {
                        0u8
                    },
                )
                &&& advances_pc(pre, post)
                &&& keeps_index_stack_mode(pre, post)
            } else {
                &&& r == Result::<(), Fault>::Err(Fault::MemoryOutOfBounds)
                &&& peripherals_unchanged(m0, m1, d0, d1, t0, t1)
                &&& cpu_unchanged(pre, post)
            }
        },
        Instruction::SkipKey(x) => {
            &&& r is Ok
            &&& peripherals_unchanged(m0, m1, d0, d1, t0, t1)
            &&& post.program_counter == pre.program_counter + (
            if key_pressed(keys, pre.registers@[x as int]) {
                4int
            } else {
                2int
            })
            &&& post.registers@ == pre.registers@
            &&& keeps_index_stack_mode(pre, post)
        },
        Instruction::SkipNoKey(x) => {
            &&& r is Ok
            &&& peripherals_unchanged(m0, m1, d0, d1, t0, t1)
            &&& post.program_counter == pre.program_counter + (
            if !key_pressed(keys, pre.registers@[x as int]) {
                4int
            } else {
                2int
            })
            &&& post.registers@ == pre.registers@
            &&& keeps_index_stack_mode(pre, post)
        },
        Instruction::ReadDelay(x) => {
            &&& r is Ok
            &&& peripherals_unchanged(m0, m1, d0, d1, t0, t1)
            &&& post.registers@ == pre.registers@.update(x as int, t0.delay_timer)
            &&& advances_pc(pre, post)
            &&& keeps_index_stack_mode(pre, post)
        },
        Instruction::WaitKey(x) => {
            &&& r is Ok
            &&& peripherals_unchanged(m0, m1, d0, d1, t0, t1)
            &&& post.mode == Mode::AwaitingKey(x)
            &&& post.registers@ == pre.registers@
            &&& post.program_counter == pre.program_counter
            &&& post.index_register == pre.index_register
            &&& post.stack@ == pre.stack@
        },
        Instruction::SetDelay(x) => {
            &&& r is Ok
            &&& m1 == m0
            &&& d1.pixels@ == d0.pixels@ && d1.draw_flag == d0.draw_flag
            &&& t1.delay_timer == pre.registers@[x as int]
            &&& t1.sound_timer == t0.sound_timer
            &&& post.registers@ == pre.registers@
            &&& advances_pc(pre, post)
            &&& keeps_index_stack_mode(pre, post)
        },
        Instruction::SetSound(x) => {
            &&& r is Ok
            &&& m1 == m0
            &&& d1.pixels@ == d0.pixels@ && d1.draw_flag == d0.draw_flag
            &&& t1.sound_timer == pre.registers@[x as int]
            &&& t1.delay_timer == t0.delay_timer
            &&& post.registers@ == pre.registers@
            &&& advances_pc(pre, post)
            &&& keeps_index_stack_mode(pre, post)
        },
        Instruction::AddIndex(x) => {
            &&& r is Ok
            &&& peripherals_unchanged(m0, m1, d0, d1, t0, t1)
            &&& post.index_register == (pre.index_register + pre.registers@[x as int]) % 0x10000
            &&& post.registers@ == pre.registers@
            &&& advances_pc(pre, post)
            &&& post.stack@ == pre.stack@
            &&& post.mode == pre.mode
        },
        Instruction::FontIndex(x) => {
            &&& r is Ok
            &&& peripherals_unchanged(m0, m1, d0, d1, t0, t1)
            &&& post.index_register == pre.registers@[x as int] * 5
            &&& post.registers@ == pre.registers@
            &&& advances_pc(pre, post)
            &&& post.stack@ == pre.stack@
            &&& post.mode == pre.mode
        },
        Instruction::StoreBcd(x) => {
            if pre.index_register + 2 < 4096 {
                let i = pre.index_register as int;
                let v = pre.registers@[x as int];
                &&& r is Ok
                &&& m1 == m0.update(i, v / 100).update(i + 1, (v / 10) % 10).update(i + 2, v % 10)
                &&& d1.pixels@ == d0.pixels@ && d1.draw_flag == d0.draw_flag
                &&& t1.delay_timer == t0.delay_timer && t1.sound_timer == t0.sound_timer
                &&& post.registers@ == pre.registers@
                &&& advances_pc(pre, post)
                &&& keeps_index_stack_mode(pre, post)
            } else {
                &&& r == Result::<(), Fault>::Err(Fault::MemoryOutOfBounds)
                &&& peripherals_unchanged(m0, m1, d0, d1, t0, t1)
                &&& cpu_unchanged(pre, post)
            }
        },
        Instruction::StoreRegs(x) => {
            if pre.index_register + x < 4096 {
                &&& r is Ok
                &&& m1.len() == m0.len()
                &&& forall|j: int|
                    0 <= j <= x ==> m1[pre.index_register + j] == pre.registers@[j]
                &&& forall|j: int|
                    (0 <= j < pre.index_register || pre.index_register + x < j < 4096) ==> m1[j]
                        == m0[j]
                &&& d1.pixels@ == d0.pixels@ && d1.draw_flag == d0.draw_flag
                &&& t1.delay_timer == t0.delay_timer && t1.sound_timer == t0.sound_timer
                &&& post.registers@ == pre.registers@
                &&& advances_pc(pre, post)
                &&& keeps_index_stack_mode(pre, post)
            } else {
                &&& r == Result::<(), Fault>::Err(Fault::MemoryOutOfBounds)
                &&& peripherals_unchanged(m0, m1, d0, d1, t0, t1)
                &&& cpu_unchanged(pre, post)
            }
        },
        Instruction::LoadRegs(x) => {
            if pre.index_register + x < 4096 {
                &&& r is Ok
                &&& peripherals_unchanged(m0, m1, d0, d1, t0, t1)
                &&& post.registers@.len() == 16
                &&& forall|j: int|
                    0 <= j <= x ==> post.registers@[j] == m0[pre.index_register + j]
                &&& forall|j: int| x < j < 16 ==> post.registers@[j] == pre.registers@[j]
                &&& advances_pc(pre, post)
                &&& keeps_index_stack_mode(pre, post)
            } else {
                &&& r == Result::<(), Fault>::Err(Fault::MemoryOutOfBounds)
                &&& peripherals_unchanged(m0, m1, d0, d1, t0, t1)
                &&& cpu_unchanged(pre, post)
            }
        },
        Instruction::Unknown => {
            &&& r is Ok
            &&& peripherals_unchanged(m0, m1, d0, d1, t0, t1)
            &&& post.registers@ == pre.registers@
            &&& advances_pc(pre, post)
            &&& keeps_index_stack_mode(pre, post)
        },
    }
}

impl CPU {
    /// Dispatch one decoded instruction word against the machine. A fatal
    /// condition (stack overflow or underflow, an out-of-bounds memory
    /// access) is surfaced as an error with every component untouched; an
    /// unrecognized word is a two-byte-advancing no-op.
    pub fn execute_opcode(
        &mut self,
        opcode: u16,
        ram: &mut RAM,
        display: &mut Display,
        keys: &Keypad,
        timer: &mut Timer,
    ) -> (r: Result<(), Fault>)
        requires
            old(self).wf(),
            old(ram).wf(),
            old(display).wf(),
            keys.wf(),
            old(self).program_counter < 4096,
        ensures
            final(self).wf(),
            final(ram).wf(),
            final(display).wf(),
            step_effects(
                *old(self),
                *final(self),
                old(ram).ram@,
                final(ram).ram@,
                *old(display),
                *final(display),
                *old(timer),
                *final(timer),
                *keys,
                spec_decode(opcode),
                r,
            ),
    {
        let instr = decode(opcode);
        match instr {
            Instruction::ClearScreen => {
                self.clear_screen(display);
                Ok(())
            },
            Instruction::Return => {
                if self.stack.len() == 0 {
                    Err(Fault::StackUnderflow)
                } else {
                    self.return_from_subroutine();
                    Ok(())
                }
            },
            Instruction::Jump(nnn) => {
                self.jump_to_address(nnn);
                Ok(())
            },
            Instruction::Call(nnn) => {
                if self.stack.len() >= STACK_SIZE {
                    Err(Fault::StackOverflow)
                } else {
                    self.call_subroutine(nnn);
                    Ok(())
                }
            },
            Instruction::SkipEqImm(x, nn) => {
                self.skip_if_equal(x, nn);
                Ok(())
            },
            Instruction::SkipNeImm(x, nn) => {
                self.skip_if_not_equal(x, nn);
                Ok(())
            },
            Instruction::SkipEqReg(x, y) => {
                self.skip_if_equal_register(x, y);
                Ok(())
            },
            Instruction::SkipNeReg(x, y) => {
                self.skip_if_not_equal_register(x, y);
                Ok(())
            },
            Instruction::SetImm(x, nn) => {
                self.set_register(x, nn);
                Ok(())
            },
            Instruction::AddImm(x, nn) => {
                self.add_to_register(x, nn);
                Ok(())
            },
            Instruction::CopyReg(x, y) => {
                self.set_register_register(x, y);
                Ok(())
            },
            Instruction::OrReg(x, y) => {
                self.set_register_or(x, y);
                Ok(())
            },
            Instruction::AndReg(x, y) => {
                self.set_register_and(x, y);
                Ok(())
            },
            Instruction::XorReg(x, y) => {
                self.set_register_xor(x, y);
                Ok(())
            },
            Instruction::AddReg(x, y) => {
                self.add_register_register(x, y);
                Ok(())
            },
            Instruction::SubReg(x, y) => {
                self.sub_register_register(x, y);
                Ok(())
            },
            Instruction::ShiftRight(x) => {
                self.shift_right(x);
                Ok(())
            },
            Instruction::SubRevReg(x, y) => {
                self.sub_register_register_reverse(x, y);
                Ok(())
            },
            Instruction::ShiftLeft(x) => {
                self.shift_left(x);
                Ok(())
            },
            Instruction::SetIndex(nnn) => {
                self.set_index_register(nnn);
                Ok(())
            },
            Instruction::JumpOffset(nnn) => {
                self.jump_to_address_plus_register(nnn);
                Ok(())
            },
            Instruction::RandomAnd(x, nn) => {
                self.set_register_random(x, nn);
                Ok(())
            },
            Instruction::Draw(x, y, n) => {
                if self.index_register as usize + n as usize > 4096 {
                    Err(Fault::MemoryOutOfBounds)
                } else {
                    self.draw_sprite(x, y, n, ram, display);
                    Ok(())
                }
            },
            Instruction::SkipKey(x) => {
                self.skip_if_key_pressed(x, keys);
                Ok(())
            },
            Instruction::SkipNoKey(x) => {
                self.skip_if_key_not_pressed(x, keys);
                Ok(())
            },
            Instruction::ReadDelay(x) => {
                self.set_register_delay_timer(x, timer);
                Ok(())
            },
            Instruction::WaitKey(x) => {
                self.wait_for_key_press(x);
                Ok(())
            },
            Instruction::SetDelay(x) => {
                self.set_delay_timer_register(x, timer);
                Ok(())
            },
            Instruction::SetSound(x) => {
                self.set_sound_timer_register(x, timer);
                Ok(())
            },
            Instruction::AddIndex(x) => {
                self.add_index_register_register(x);
                Ok(())
            },
            Instruction::FontIndex(x) => {
                self.set_index_register_sprite(x);
                Ok(())
            },
            Instruction::StoreBcd(x) => {
                if self.index_register as usize + 2 >= 4096 {
                    Err(Fault::MemoryOutOfBounds)
                } else {
                    self.store_bcd(x, ram);
                    Ok(())
                }
            },
            Instruction::StoreRegs(x) => {
                if self.index_register as usize + x as usize >= 4096 {
                    Err(Fault::MemoryOutOfBounds)
                } else {
                    self.store_registers(x, ram);
                    Ok(())
                }
            },
            Instruction::LoadRegs(x) => {
                if self.index_register as usize + x as usize >= 4096 {
                    Err(Fault::MemoryOutOfBounds)
                } else {
                    self.load_registers(x, ram);
                    Ok(())
                }
            },
            Instruction::Unknown => {
                self.program_counter = self.program_counter + 2;
                Ok(())
            },
        }
    }

    /// One interpreter step. While awaiting a key the step only consults
    /// the key snapshot; otherwise it fetches the word at the program
    /// counter, decodes it and executes it, surfacing any fatal condition
    /// with the machine untouched.
    pub fn cycle(
        &mut self,
        ram: &mut RAM,
        display: &mut Display,
        keys: &Keypad,
        timer: &mut Timer,
    ) -> (r: Result<(), Fault>)
        requires
            old(self).wf(),
            old(ram).wf(),
            old(display).wf(),
            keys.wf(),
            old(self).program_counter + 2 <= 0xFFFF,
        ensures
            final(self).wf(),
            final(ram).wf(),
            final(display).wf(),
            (match old(self).mode {
                Mode::AwaitingKey(x) => {
                    &&& r is Ok
                    &&& peripherals_unchanged(
                        old(ram).ram@,
                        final(ram).ram@,
                        *old(display),
                        *final(display),
                        *old(timer),
                        *final(timer),
                    )
                    &&& key_wait_step(*old(self), *final(self), x, *keys)
                },
                Mode::Running => {
                    if old(self).program_counter + 1 < 4096 {
                        step_effects(
                            *old(self),
                            *final(self),
                            old(ram).ram@,
                            final(ram).ram@,
                            *old(display),
                            *final(display),
                            *old(timer),
                            *final(timer),
                            *keys,
                            spec_decode(
                                spec_fetch(old(ram).ram@, old(self).program_counter as int),
                            ),
                            r,
                        )
                    } else {
                        &&& r == Result::<(), Fault>::Err(Fault::MemoryOutOfBounds)
                        &&& peripherals_unchanged(
                            old(ram).ram@,
                            final(ram).ram@,
                            *old(display),
                            *final(display),
                            *old(timer),
                            *final(timer),
                        )
                        &&& cpu_unchanged(*old(self), *final(self))
                    }
                },
            }),
    {
        match self.mode {
            Mode::AwaitingKey(x) => {
                self.resolve_key_wait(x, keys);
                Ok(())
            },
            Mode::Running => {
                if self.program_counter + 1 >= 4096 {
                    return Err(Fault::MemoryOutOfBounds);
                }
                let opcode = self.fetch_opcode(ram);
                self.execute_opcode(opcode, ram, display, keys, timer)
            },
        }
    }
}

/// Read `len` consecutive memory bytes starting at `start`.
fn read_block(ram: &RAM, start: u16, len: u8) -> (v: Vec<u8>)
    requires
        ram.wf(),
        start + len <= 4096,
    ensures
        v@ == ram.ram@.subrange(start as int, start as int + len as int),
{
    let mut v: Vec<u8> = Vec::new();
    let mut j: u16 = 0;
    while j < len as u16
        invariant
            ram.wf(),
            start + len <= 4096,
            j <= len,
            v@ == ram.ram@.subrange(start as int, start as int + j as int),
        decreases len - j,
    {
        let b = ram.read(start + j);
        v.push(b);
        proof {
            assert(v@ =~= ram.ram@.subrange(start as int, start as int + j as int + 1));
        }
        j = j + 1;
    }
    v
}

/// Law: writing an immediate to a register and reading that register back
/// yields exactly the immediate, for every register and every value.
pub proof fn lemma_set_register_then_read(pre: CPU, post: CPU, x: u8, nn: u8)
    requires
        pre.wf(),
        x < 16,
        post.registers@ == pre.registers@.update(x as int, nn),
    ensures
        post.registers@[x as int] == nn,
{
}

/// Law: a call followed immediately by a return restores the program
/// counter that was current before the call, advanced by 2, and leaves the
/// call stack as it was.
pub proof fn lemma_call_then_return(pre: CPU, mid: CPU, post: CPU, nnn: u16)
    requires
        pre.wf(),
        mid.stack@ == pre.stack@.push(pre.program_counter),
        mid.stack@.len() > 0,
        post.program_counter == mid.stack@.last() + 2,
        post.stack@ == mid.stack@.drop_last(),
    ensures
        post.program_counter == pre.program_counter + 2,
        post.stack@ == pre.stack@,
{
    assert(mid.stack@.last() == pre.program_counter);
    assert(mid.stack@.drop_last() =~= pre.stack@);
}

} // verus!
