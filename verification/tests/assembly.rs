use elysium::assembly::{
    disassemble, flow_control, instruction_at, jump_slot, last_instruction, AbsoluteJump,
    FlowControl, HookError,
};
use elysium::dismal::{self, FlowInfo};
use elysium::mem::{next_abs_addr, next_abs_addr_mut};

/// `mov rax, [rip + 0x10]`
const MOV_RIP_REL: [u8; 7] = [0x48, 0x8b, 0x05, 0x10, 0x00, 0x00, 0x00];

/// `jmp [rip + 0]`
const JMP_RIP_REL: [u8; 6] = [0xff, 0x25, 0x00, 0x00, 0x00, 0x00];

#[test]
fn decodes_rip_relative_mov() {
    let ins = instruction_at(&MOV_RIP_REL, 0x1000);
    assert_eq!(ins.ip, 0x1000);
    assert_eq!(ins.len, 7);
    assert_eq!(ins.flow_control, FlowControl::Next);
    assert!(!ins.is_jmp);
    assert!(ins.is_ip_rel_memory_operand);
    assert_eq!(ins.ip_rel_memory_address, 0x1017);
}

#[test]
fn decodes_indirect_jump() {
    let ins = instruction_at(&JMP_RIP_REL, 0x2000);
    assert_eq!(ins.len, 6);
    assert_eq!(ins.flow_control, FlowControl::IndirectBranch);
    assert!(ins.is_jmp);
    assert_eq!(ins.ip_rel_memory_address, 0x2006);
}

#[test]
fn flow_control_numbering() {
    assert_eq!(flow_control(0), FlowControl::Next);
    assert_eq!(flow_control(1), FlowControl::UnconditionalBranch);
    assert_eq!(flow_control(4), FlowControl::Return);
    assert_eq!(flow_control(5), FlowControl::Call);
    assert_eq!(flow_control(9), FlowControl::Exception);
    assert_eq!(flow_control(200), FlowControl::Exception);
}

#[test]
fn disassembly_stops_at_first_transfer() {
    // nop; nop; ret; nop
    let code = [0x90, 0x90, 0xc3, 0x90];
    let instructions = disassemble(&code, 0x4000);
    assert_eq!(instructions.len(), 3);
    assert_eq!(instructions[0].ip, 0x4000);
    assert_eq!(instructions[1].ip, 0x4001);
    assert_eq!(instructions[2].ip, 0x4002);
    assert_eq!(instructions[2].flow_control, FlowControl::Return);
}

#[test]
fn disassembly_of_nothing_is_empty() {
    assert!(disassemble(&[], 0x4000).is_empty());
    assert_eq!(last_instruction(&Vec::new()), None);
}

#[test]
fn jump_slot_of_trampoline() {
    let instructions = disassemble(&JMP_RIP_REL, 0x2000);
    assert_eq!(instructions.len(), 1);
    assert_eq!(jump_slot(&instructions), Ok(0x2006));
}

#[test]
fn jump_slot_errors() {
    assert_eq!(jump_slot(&Vec::new()), Err(HookError::Disassembly));
    let instructions = disassemble(&[0x90, 0xc3], 0x2000);
    assert_eq!(jump_slot(&instructions), Err(HookError::IncompatibleLibrary));
}

#[test]
fn absolute_jump_bytes() {
    let jump = AbsoluteJump::new(0x1122_3344_5566_7788);
    assert_eq!(
        jump.bytes(),
        [0x48, 0xb8, 0x88, 0x77, 0x66, 0x55, 0x44, 0x33, 0x22, 0x11, 0xff, 0xe0]
    );
    assert_eq!(jump.mov, [0x48, 0xb8]);
    assert_eq!(jump.jmp, [0xff, 0xe0]);
}

#[test]
fn absolute_jump_address_reads_back() {
    for addr in [0u64, 1, 0xdead_beef, u64::MAX, 0x7f80_6219_6968] {
        let bytes = AbsoluteJump::new(addr).bytes();
        let mut addr_bytes = [0u8; 8];
        addr_bytes.copy_from_slice(&bytes[2..10]);
        assert_eq!(u64::from_le_bytes(addr_bytes), addr);
        // The jump decodes as `mov rax, imm64` followed by `jmp rax`.
        let instructions = disassemble(&bytes, 0x9000);
        assert_eq!(instructions.len(), 2);
        assert_eq!(instructions[0].len, 10);
        assert_eq!(instructions[1].flow_control, FlowControl::IndirectBranch);
        assert!(instructions[1].is_jmp);
    }
}

#[test]
fn next_abs_addr_finds_first_relative_operand() {
    assert_eq!(next_abs_addr(&MOV_RIP_REL, 0x1000), Some(0x1017));
    let mut code = vec![0x90];
    code.extend_from_slice(&MOV_RIP_REL);
    assert_eq!(next_abs_addr(&code, 0x1000), Some(0x1018));
}

#[test]
fn next_abs_addr_without_relative_operand() {
    assert_eq!(next_abs_addr(&[0x90, 0x90], 0x1000), None);
    assert_eq!(next_abs_addr(&[], 0x1000), None);
}

#[test]
fn next_abs_addr_mut_leaves_bytes() {
    let mut code = MOV_RIP_REL;
    assert_eq!(next_abs_addr_mut(&mut code, 0x1000), Some(0x1017));
    assert_eq!(code, MOV_RIP_REL);
}

#[test]
fn flow_info_of_mov_then_jump() {
    // mov rax, [rip + 0x10]; jmp rax
    let mut code = MOV_RIP_REL.to_vec();
    code.extend_from_slice(&[0xff, 0xe0]);
    assert_eq!(
        dismal::disassemble(&code, 0x1000),
        Some(FlowInfo { rel_addr: 0x1017, target: 0x1007 + 0x1017 })
    );
}

#[test]
fn flow_info_of_return_is_none() {
    assert_eq!(dismal::disassemble(&[0x90, 0xc3], 0x1000), None);
    assert_eq!(dismal::disassemble(&[], 0x1000), None);
}

#[test]
fn flow_info_of_direct_call() {
    // call rel32 0: the decoder reports the address after the call as its
    // relative address, and the target adds it to the call's own address.
    let code = [0xe8, 0x00, 0x00, 0x00, 0x00];
    assert_eq!(
        dismal::disassemble(&code, 0x3000),
        Some(FlowInfo { rel_addr: 0x3005, target: 0x3000 + 0x3005 })
    );
}
