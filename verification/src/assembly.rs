//! x86-64 machine code: decoding instruction streams with `iced_x86`, and the
//! absolute jump that hooks write over a function's first bytes.

use vstd::prelude::*;
use vstd::wrapping::u64_specs::wrapping_add;

verus! {

/// How an instruction passes control on, as the decoder classifies it.
#[derive(Clone, Copy, Debug, PartialEq, Eq)]
pub enum FlowControl {
    Next,
    UnconditionalBranch,
    IndirectBranch,
    ConditionalBranch,
    Return,
    Call,
    IndirectCall,
    Interrupt,
    XbeginXabortXend,
    Exception,
}

/// The decoder's numbering of the `jmp` mnemonic.
pub const JMP_MNEMONIC: u16 = 308;

/// What the decoder reports of one instruction, in its own numbering.
#[derive(Clone, Copy, Debug, PartialEq, Eq)]
pub struct RawInstruction {
    /// Length in bytes.
    pub len: usize,
    /// Control flow, numbered as the decoder numbers it.
    pub flow: u8,
    /// Mnemonic, numbered as the decoder numbers it.
    pub mnemonic: u16,
    /// Whether a memory operand is addressed relative to the instruction
    /// pointer.
    pub is_ip_rel_memory_operand: bool,
    /// The absolute address that operand refers to.
    pub ip_rel_memory_address: u64,
}

/// The decoding of the first instruction of `bytes` when it is placed at
/// address `ip` in 64-bit mode.
pub uninterp spec fn decoded(bytes: Seq<u8>, ip: u64) -> RawInstruction;

/// `iced_x86::Decoder::decode` on a fresh 64-bit decoder over `bytes` at
/// address `ip`, reporting the instruction's length, flow control and
/// mnemonic numbers and its instruction-pointer-relative operand. What the
/// decoder returns is only named here: the result is a function of the bytes
/// and the address, nothing more is claimed of it.
#[verifier::external_body]
fn decode_raw(bytes: &[u8], ip: u64) -> (r: RawInstruction)
    ensures
        r == decoded(bytes@, ip),
{
    let mut decoder = iced_x86::Decoder::with_ip(64, bytes, ip, iced_x86::DecoderOptions::NONE);
    let instruction = decoder.decode();
    RawInstruction {
        len: instruction.len(),
        flow: instruction.flow_control() as u8,
        mnemonic: instruction.mnemonic() as u16,
        is_ip_rel_memory_operand: instruction.is_ip_rel_memory_operand(),
        ip_rel_memory_address: instruction.ip_rel_memory_address(),
    }
}

/// The flow control the decoder numbers `n`.
pub open spec fn spec_flow_control(n: u8) -> FlowControl {
    if n == 0 {
        FlowControl::Next
    } else if n == 1 {
        FlowControl::UnconditionalBranch
    } else if n == 2 {
        FlowControl::IndirectBranch
    } else if n == 3 {
        FlowControl::ConditionalBranch
    } else if n == 4 {
        FlowControl::Return
    } else if n == 5 {
        FlowControl::Call
    } else if n == 6 {
        FlowControl::IndirectCall
    } else if n == 7 {
        FlowControl::Interrupt
    } else if n == 8 {
        FlowControl::XbeginXabortXend
    } else {
        FlowControl::Exception
    }
}

/// The flow control the decoder numbers `n`.
pub fn flow_control(n: u8) -> (r: FlowControl)
    ensures
        r == spec_flow_control(n),
{
    if n == 0 {
        FlowControl::Next
    } else if n == 1 {
        FlowControl::UnconditionalBranch
    } else if n == 2 {
        FlowControl::IndirectBranch
    } else if n == 3 {
        FlowControl::ConditionalBranch
    } else if n == 4 {
        FlowControl::Return
    } else if n == 5 {
        FlowControl::Call
    } else if n == 6 {
        FlowControl::IndirectCall
    } else if n == 7 {
        FlowControl::Interrupt
    } else if n == 8 {
        FlowControl::XbeginXabortXend
    } else {
        FlowControl::Exception
    }
}

/// A decoded instruction.
#[derive(Clone, Copy, Debug, PartialEq, Eq)]
pub struct Instruction {
    /// The address of the instruction.
    pub ip: u64,
    /// Length in bytes.
    pub len: usize,
    /// How control passes on after it.
    pub flow_control: FlowControl,
    /// Whether its mnemonic is `jmp`.
    pub is_jmp: bool,
    /// Whether a memory operand is addressed relative to the instruction
    /// pointer.
    pub is_ip_rel_memory_operand: bool,
    /// The absolute address that operand refers to.
    pub ip_rel_memory_address: u64,
}

/// The instruction at the start of `bytes`, placed at address `ip`.
pub open spec fn spec_instruction_at(bytes: Seq<u8>, ip: u64) -> Instruction {
    let raw = decoded(bytes, ip);
    Instruction {
        ip: ip,
        len: raw.len,
        flow_control: spec_flow_control(raw.flow),
        is_jmp: raw.mnemonic == JMP_MNEMONIC,
        is_ip_rel_memory_operand: raw.is_ip_rel_memory_operand,
        ip_rel_memory_address: raw.ip_rel_memory_address,
    }
}

/// Decodes the instruction at the start of `bytes`, placed at address `ip`.
pub fn instruction_at(bytes: &[u8], ip: u64) -> (r: Instruction)
    ensures
        r == spec_instruction_at(bytes@, ip),
{
    let raw = decode_raw(bytes, ip);
    Instruction {
        ip,
        len: raw.len,
        flow_control: flow_control(raw.flow),
        is_jmp: raw.mnemonic == JMP_MNEMONIC,
        is_ip_rel_memory_operand: raw.is_ip_rel_memory_operand,
        ip_rel_memory_address: raw.ip_rel_memory_address,
    }
}

/// The address of the byte at offset `pos` of code placed at `ip`.
pub open spec fn address_of(ip: u64, pos: nat) -> u64 {
    wrapping_add(ip, pos as u64)
}

/// Whether decoding can go on past an instruction of length `len` found at
/// offset `pos` of `bytes`: the decoder made progress and stayed inside.
pub open spec fn advances(bytes: Seq<u8>, pos: nat, len: usize) -> bool {
    0 < len && pos + len <= bytes.len()
}

/// The instructions decoded from offset `pos` on, up to and including the
/// first one that does not pass control to the next.
pub open spec fn disassemble_from(bytes: Seq<u8>, ip: u64, pos: nat) -> Seq<Instruction>
    decreases bytes.len() - pos,
{
    if pos >= bytes.len() {
        Seq::empty()
    } else {
        let ins = spec_instruction_at(bytes.skip(pos as int), address_of(ip, pos));
        if ins.flow_control != FlowControl::Next || !advances(bytes, pos, ins.len) {
            seq![ins]
        } else {
            seq![ins] + disassemble_from(bytes, ip, (pos + ins.len) as nat)
        }
    }
}

/// Decodes `bytes`, placed at address `ip`, up to and including the first
/// instruction that does not pass control to the next one.
pub fn disassemble(bytes: &[u8], ip: u64) -> (r: Vec<Instruction>)
    ensures
        r@ == disassemble_from(bytes@, ip, 0),
{
    let mut instructions: Vec<Instruction> = Vec::new();
    let mut pos: usize = 0;
    while pos < bytes.len()
        invariant_except_break
            pos <= bytes@.len(),
            instructions@ + disassemble_from(bytes@, ip, pos as nat) == disassemble_from(
                bytes@,
                ip,
                0,
            ),
        ensures
            instructions@ == disassemble_from(bytes@, ip, 0),
        decreases bytes@.len() - pos,
    {
        let rest = &bytes[pos..bytes.len()];
        assert(rest@ =~= bytes@.skip(pos as int));
        let instruction = instruction_at(rest, ip.wrapping_add(pos as u64));
        let ghost before = instructions@;
        instructions.push(instruction);
        let go_on = matches!(instruction.flow_control, FlowControl::Next) && 0 < instruction.len
            && instruction.len <= bytes.len() - pos;
        if !go_on {
            assert(instructions@ =~= before + disassemble_from(bytes@, ip, pos as nat));
            break;
        }
        assert(instructions@ + disassemble_from(bytes@, ip, (pos + instruction.len) as nat)
            =~= before + disassemble_from(bytes@, ip, pos as nat));
        pos = pos + instruction.len;
    }
    proof {
        if pos >= bytes.len() {
            assert(instructions@ =~= instructions@ + disassemble_from(bytes@, ip, pos as nat));
        }
    }
    instructions
}

} // verus!

verus! {

/// The last of the decoded instructions, if any.
pub fn last_instruction(instructions: &Vec<Instruction>) -> (r: Option<Instruction>)
    ensures
        instructions@.len() == 0 ==> r is None,
        instructions@.len() > 0 ==> r == Some(instructions@.last()),
{
    let len = instructions.len();
    if len == 0 {
        None
    } else {
        Some(instructions[len - 1])
    }
}

/// Why the slot of a function's trampoline could not be found.
#[derive(Clone, Copy, Debug, PartialEq, Eq)]
pub enum HookError {
    /// The function could not be disassembled.
    Disassembly,
    /// The function does not end in a `jmp`: the library is not the one the
    /// hook was written for.
    IncompatibleLibrary,
}

/// The slot a trampoline function jumps through: the memory operand of its
/// last instruction, which must be a `jmp`.
pub open spec fn spec_jump_slot(instructions: Seq<Instruction>) -> Result<u64, HookError> {
    if instructions.len() == 0 {
        Err(HookError::Disassembly)
    } else if !instructions.last().is_jmp {
        Err(HookError::IncompatibleLibrary)
    } else {
        Ok(instructions.last().ip_rel_memory_address)
    }
}

/// Finds the slot that a trampoline function (such as the PLT-style stubs of
/// `SDL_GL_SwapWindow` and `SDL_PollEvent`) jumps through.
pub fn jump_slot(instructions: &Vec<Instruction>) -> (r: Result<u64, HookError>)
    ensures
        r == spec_jump_slot(instructions@),
{
    match last_instruction(instructions) {
        None => Err(HookError::Disassembly),
        Some(last) => if last.is_jmp {
            Ok(last.ip_rel_memory_address)
        } else {
            Err(HookError::IncompatibleLibrary)
        },
    }
}

/// A `mov rax, <64-bit addr>; jmp rax`.
#[derive(Clone, Copy, Debug)]
pub struct AbsoluteJump {
    pub mov: [u8; 2],
    pub addr: [u8; 8],
    pub jmp: [u8; 2],
}

/// The little-endian bytes of `x`.
pub open spec fn le_bytes(x: u64) -> Seq<u8> {
    Seq::new(8, |i: int| le_byte(x, i))
}

/// The bytes of `mov rax, addr; jmp rax`.
pub open spec fn spec_absolute_jump(addr: u64) -> Seq<u8> {
    seq![0x48u8, 0xb8u8] + le_bytes(addr) + seq![0xffu8, 0xe0u8]
}

/// Byte `i` of `x` in little-endian order.
pub open spec fn le_byte(x: u64, i: int) -> u8 {
    ((x >> (8 * i) as u64) & 0xff) as u8
}

/// The value of eight bytes read in little-endian order.
pub open spec fn le_u64(b: Seq<u8>) -> int {
    b[0] + b[1] * 0x100 + b[2] * 0x1_0000 + b[3] * 0x100_0000 + b[4] * 0x1_0000_0000 + b[5]
        * 0x100_0000_0000 + b[6] * 0x1_0000_0000_0000 + b[7] * 0x100_0000_0000_0000
}

impl AbsoluteJump {
    /// The bytes of the instruction pair: the `mov` opcode, the address in
    /// the byte order of the x86-64 target, and the `jmp rax` opcode.
    pub open spec fn spec_bytes(self) -> Seq<u8> {
        self.mov@ + self.addr@ + self.jmp@
    }

    /// The jump to `addr`.
    pub fn new(addr: u64) -> (r: AbsoluteJump)
        ensures
            r.spec_bytes() == spec_absolute_jump(addr),
    {
        let addr_bytes = [
            (addr & 0xff) as u8,
            ((addr >> 8) & 0xff) as u8,
            ((addr >> 16) & 0xff) as u8,
            ((addr >> 24) & 0xff) as u8,
            ((addr >> 32) & 0xff) as u8,
            ((addr >> 40) & 0xff) as u8,
            ((addr >> 48) & 0xff) as u8,
            ((addr >> 56) & 0xff) as u8,
        ];
        let r = AbsoluteJump { mov: [0x48, 0xb8], addr: addr_bytes, jmp: [0xff, 0xe0] };
        assert(r.mov@ =~= seq![0x48u8, 0xb8u8]);
        assert(r.jmp@ =~= seq![0xffu8, 0xe0u8]);
        assert(addr == addr >> 0u64) by (bit_vector);
        assert(r.addr@ =~= le_bytes(addr));
        assert(r.spec_bytes() =~= spec_absolute_jump(addr));
        r
    }

    /// The twelve bytes written over the hooked function.
    pub fn bytes(&self) -> (r: [u8; 12])
        ensures
            r@ == self.spec_bytes(),
    {
        let r = [
            self.mov[0],
            self.mov[1],
            self.addr[0],
            self.addr[1],
            self.addr[2],
            self.addr[3],
            self.addr[4],
            self.addr[5],
            self.addr[6],
            self.addr[7],
            self.jmp[0],
            self.jmp[1],
        ];
        assert(r@ =~= self.spec_bytes());
        r
    }
}

/// The address bytes of a jump, read back little-endian, give the address it
/// jumps to; the opcodes around them are `mov rax` and `jmp rax`.
pub proof fn law_absolute_jump_address(addr: u64)
    ensures
        spec_absolute_jump(addr).len() == 12,
        spec_absolute_jump(addr).subrange(0, 2) == seq![0x48u8, 0xb8u8],
        le_u64(spec_absolute_jump(addr).subrange(2, 10)) == addr,
        spec_absolute_jump(addr).subrange(10, 12) == seq![0xffu8, 0xe0u8],
{
    let b = spec_absolute_jump(addr);
    assert(b.subrange(0, 2) =~= seq![0x48u8, 0xb8u8]);
    assert(b.subrange(10, 12) =~= seq![0xffu8, 0xe0u8]);
    assert(b.subrange(2, 10) =~= le_bytes(addr));
    assert((addr & 0xff) as u8 + ((addr >> 8) & 0xff) as u8 * 0x100 + ((addr >> 16) & 0xff) as u8
        * 0x1_0000 + ((addr >> 24) & 0xff) as u8 * 0x100_0000 + ((addr >> 32) & 0xff) as u8
        * 0x1_0000_0000 + ((addr >> 40) & 0xff) as u8 * 0x100_0000_0000 + ((addr >> 48) & 0xff) as u8
        * 0x1_0000_0000_0000 + ((addr >> 56) & 0xff) as u8 * 0x100_0000_0000_0000 == addr)
        by (bit_vector);
    assert(addr == addr >> 0u64) by (bit_vector);
}

/// A disassembly stops at the first control transfer: every instruction but
/// the last passes control to the next one, and a disassembly of code that
/// is there starts with the instruction at its first byte.
pub proof fn law_disassembly_stops_at_first_transfer(bytes: Seq<u8>, ip: u64, pos: nat)
    ensures
        forall|k: int|
            0 <= k < disassemble_from(bytes, ip, pos).len() - 1 ==> (#[trigger] disassemble_from(
                bytes,
                ip,
                pos,
            )[k]).flow_control == FlowControl::Next,
        pos < bytes.len() ==> disassemble_from(bytes, ip, pos).len() > 0 && disassemble_from(
            bytes,
            ip,
            pos,
        )[0] == spec_instruction_at(bytes.skip(pos as int), address_of(ip, pos)),
    decreases bytes.len() - pos,
{
    if pos < bytes.len() {
        let ins = spec_instruction_at(bytes.skip(pos as int), address_of(ip, pos));
        if !(ins.flow_control != FlowControl::Next || !advances(bytes, pos, ins.len)) {
            let next = (pos + ins.len) as nat;
            law_disassembly_stops_at_first_transfer(bytes, ip, next);
            let r = disassemble_from(bytes, ip, pos);
            let rest = disassemble_from(bytes, ip, next);
            assert(r == seq![ins] + rest);
            assert forall|k: int| 0 <= k < r.len() - 1 implies (#[trigger] r[k]).flow_control
                == FlowControl::Next by {
                if k > 0 {
                    assert(r[k] == rest[k - 1]);
                }
            }
        }
    }
}

/// The slot of a trampoline is read from its last instruction alone: what
/// precedes it does not matter, a final `jmp` gives its memory operand, and
/// any other final instruction means the library is not the expected one.
pub proof fn law_jump_slot_reads_last(prefix: Seq<Instruction>, last: Instruction)
    ensures
        spec_jump_slot(prefix.push(last)) == spec_jump_slot(seq![last]),
        last.is_jmp ==> spec_jump_slot(prefix.push(last)) == Ok::<u64, HookError>(
            last.ip_rel_memory_address,
        ),
        !last.is_jmp ==> spec_jump_slot(prefix.push(last)) == Err::<u64, HookError>(
            HookError::IncompatibleLibrary,
        ),
        spec_jump_slot(Seq::empty()) == Err::<u64, HookError>(HookError::Disassembly),
{
    assert(prefix.push(last).last() == last);
    assert(seq![last].last() == last);
}

} // verus!
