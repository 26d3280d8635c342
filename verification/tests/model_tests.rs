use btor2_model::builder::{generate_model, ModelError, Program};
use btor2_model::decode::{decode_instruction, Instr};
use btor2_model::eval::{eval_all, init_state, step_model, Value};
use btor2_model::graph::{HashableNodeRef, Model, Node};
use btor2_model::render::print_model;

fn enc_addi(rd: u32, rs1: u32, imm: i32) -> u32 {
    ((imm as u32) << 20) | (rs1 << 15) | (rd << 7) | 0x13
}

fn enc_lui(rd: u32, imm20: u32) -> u32 {
    (imm20 << 12) | (rd << 7) | 0x37
}

fn enc_add(rd: u32, rs1: u32, rs2: u32) -> u32 {
    (rs2 << 20) | (rs1 << 15) | (rd << 7) | 0x33
}

fn enc_sub(rd: u32, rs1: u32, rs2: u32) -> u32 {
    (0x20 << 25) | (rs2 << 20) | (rs1 << 15) | (rd << 7) | 0x33
}

fn enc_mul(rd: u32, rs1: u32, rs2: u32) -> u32 {
    (1 << 25) | (rs2 << 20) | (rs1 << 15) | (rd << 7) | 0x33
}

fn enc_remu(rd: u32, rs1: u32, rs2: u32) -> u32 {
    (1 << 25) | (rs2 << 20) | (rs1 << 15) | (7 << 12) | (rd << 7) | 0x33
}

fn enc_ld(rd: u32, rs1: u32, imm: i32) -> u32 {
    ((imm as u32) << 20) | (rs1 << 15) | (3 << 12) | (rd << 7) | 0x03
}

fn enc_sd(rs1: u32, rs2: u32, imm: i32) -> u32 {
    let i = imm as u32;
    (((i >> 5) & 0x7f) << 25) | (rs2 << 20) | (rs1 << 15) | (3 << 12) | ((i & 0x1f) << 7) | 0x23
}

fn enc_ecall() -> u32 {
    0x73
}

fn enc_jal(rd: u32, imm: i32) -> u32 {
    let i = imm as u32;
    (((i >> 20) & 1) << 31) | (((i >> 1) & 0x3ff) << 21) | (((i >> 11) & 1) << 20)
        | (((i >> 12) & 0xff) << 12) | (rd << 7) | 0x6f
}

fn enc_beq(rs1: u32, rs2: u32, imm: i32) -> u32 {
    let i = imm as u32;
    (((i >> 12) & 1) << 31) | (((i >> 5) & 0x3f) << 25) | (rs2 << 20) | (rs1 << 15)
        | (((i >> 1) & 0xf) << 8) | (((i >> 11) & 1) << 7) | 0x63
}

fn enc_jalr(rd: u32, rs1: u32, imm: i32) -> u32 {
    ((imm as u32) << 20) | (rs1 << 15) | (rd << 7) | 0x67
}

fn program_of(words: &[u32], address: u64) -> Program {
    let mut code: Vec<u8> = Vec::new();
    for w in words {
        code.push((w & 0xff) as u8);
        code.push(((w >> 8) & 0xff) as u8);
        code.push(((w >> 16) & 0xff) as u8);
        code.push(((w >> 24) & 0xff) as u8);
    }
    Program { address, code }
}

fn build(words: &[u32]) -> Model {
    generate_model(&program_of(words, 0)).expect("translation should succeed")
}

/// The truth value of the bad state at `which` under the state assignment.
fn bad_is_reachable(m: &Model, sv: &Vec<Value>, which: usize) -> bool {
    let vals = eval_all(m, sv);
    match &m.lines[m.bad_states[which]] {
        Node::Bad { cond, .. } => vals[*cond] == Value::Bit(true),
        _ => panic!("bad_states entry is not a bad node"),
    }
}

/// The values of the bad state at `which` over the first `steps` steps.
fn bad_trace(words: &[u32], which: usize, steps: usize) -> Vec<bool> {
    let m = build(words);
    let mut sv = init_state(&m);
    let mut out = Vec::new();
    for _ in 0..steps {
        out.push(bad_is_reachable(&m, &sv, which));
        sv = step_model(&m, &sv);
    }
    out
}

/// Indices of the control-flag state nodes, in address order.
fn flag_indices(m: &Model) -> Vec<usize> {
    let mut out = Vec::new();
    for (i, n) in m.lines.iter().enumerate() {
        if let Node::State { name: Some(nm), .. } = n {
            if nm.starts_with(b"pc=") {
                out.push(i);
            }
        }
    }
    out
}

/// Index of the state node with the given name.
fn state_index(m: &Model, name: &[u8]) -> usize {
    for (i, n) in m.lines.iter().enumerate() {
        if let Node::State { name: Some(nm), .. } = n {
            if nm.as_slice() == name {
                return i;
            }
        }
    }
    panic!("no state named {:?}", String::from_utf8_lossy(name));
}

fn contains(haystack: &[u8], needle: &[u8]) -> bool {
    haystack.windows(needle.len()).any(|w| w == needle)
}

const INVALID_SYSCALL: usize = 0;
const NONZERO_EXIT: usize = 1;
const DIV_BY_ZERO: usize = 2;
const REM_BY_ZERO: usize = 3;

#[test]
fn node_handles_key_by_identity() {
    let a = HashableNodeRef::from(3usize);
    let b = HashableNodeRef::from(3usize);
    let c = HashableNodeRef::from(4usize);
    assert_eq!(a, b);
    assert_ne!(a, c);
    assert_eq!(a.value, 3);
}

#[test]
fn decode_supported_instructions() {
    assert_eq!(
        decode_instruction(0x00200793),
        Some(Instr::Addi { rd: 15, rs1: 0, imm: 2 })
    ); // addi x15,x0,2
    assert_eq!(decode_instruction(0x00000073), Some(Instr::Ecall));
    assert_eq!(
        decode_instruction(0x00001a37),
        Some(Instr::Lui { rd: 20, imm: 1 })
    ); // lui x20,0x1
    assert_eq!(
        decode_instruction(0x01853683),
        Some(Instr::Ld { rd: 13, rs1: 10, imm: 24 })
    ); // ld x13,24(x10)
    assert_eq!(
        decode_instruction(0x00c58633),
        Some(Instr::Add { rd: 12, rs1: 11, rs2: 12 })
    ); // add x12,x11,x12
    assert_eq!(
        decode_instruction(0x00050a63),
        Some(Instr::Beq { rs1: 10, rs2: 0, imm: 0x14 })
    ); // beq x10,x0,+20
    assert_eq!(
        decode_instruction(0x00c0006f),
        Some(Instr::Jal { rd: 0, imm: 0xc })
    ); // jal x0,+12
    assert_eq!(
        decode_instruction(enc_addi(5, 0, -1)),
        Some(Instr::Addi { rd: 5, rs1: 0, imm: u64::MAX })
    );
    assert_eq!(
        decode_instruction(enc_sd(2, 22, 176)),
        Some(Instr::Sd { rs1: 2, rs2: 22, imm: 176 })
    ); // sd x22,176(x2)
    assert_eq!(
        decode_instruction(enc_beq(6, 7, -8)),
        Some(Instr::Beq { rs1: 6, rs2: 7, imm: (-8i64) as u64 })
    );
    assert_eq!(
        decode_instruction(enc_jal(0, -4)),
        Some(Instr::Jal { rd: 0, imm: (-4i64) as u64 })
    );
}

#[test]
fn decode_rejects_invalid_words() {
    assert_eq!(decode_instruction(0xffff_ffff), None);
    assert_eq!(decode_instruction(0), None);
    assert_eq!(decode_instruction(0x0000_0001), None);
}

#[test]
fn generate_emits_four_bad_states() {
    let m = build(&[enc_addi(17, 0, 93), enc_ecall()]);
    assert_eq!(m.bad_states.len(), 4);
    let names: Vec<&[u8]> = m
        .bad_states
        .iter()
        .map(|b| match &m.lines[*b] {
            Node::Bad { name: Some(nm), .. } => nm.as_slice(),
            _ => panic!("not a named bad node"),
        })
        .collect();
    assert_eq!(names[INVALID_SYSCALL], b"invalid-syscall-id");
    assert_eq!(names[NONZERO_EXIT], b"non-zero-exit-code");
    assert_eq!(names[DIV_BY_ZERO], b"bad-division-by-zero");
    assert_eq!(names[REM_BY_ZERO], b"bad-remainder-by-zero");
}

#[test]
fn serializer_layout() {
    let m = build(&[enc_addi(17, 0, 93), enc_ecall()]);
    let out = print_model(&m).expect("a generated model always serializes");
    assert!(out.starts_with(b"; cksystemsgroup.github.io/monster\n\n"));
    assert!(out.ends_with(b"\n; end of BTOR2 file\n"));
    assert!(contains(&out, b"1 sort bitvec 1 ; Boolean\n"));
    assert!(contains(&out, b"2 sort bitvec 64 ; 64-bit machine word\n"));
    assert!(contains(&out, b"3 sort array 2 2 ; 64-bit physical memory\n"));
    assert!(contains(&out, b"10 constd 1 0\n"));
    assert!(contains(&out, b"11 constd 1 1\n"));
    assert!(contains(&out, b"60 state 1 kernel-mode\n"));
    assert!(contains(&out, b"61 init 1 60 10\n"));
    assert!(contains(&out, b"202 state 2 ra\n"));
    assert!(contains(&out, b"262 state 2 t6\n"));
    assert!(contains(&out, b"10000000 state 1 pc=0x0\n"));
    assert!(contains(&out, b"10000400 state 1 pc=0x4\n"));
    assert!(contains(&out, b"20000000 state 3 memory-dump\n"));
    assert!(contains(&out, b"20000001 state 3 virtual-memory\n"));
    assert!(contains(&out, b"\n; data flow\n\n"));
    assert!(contains(&out, b"\n; control flow\n\n"));
    assert!(contains(&out, b"bad "));
    assert!(contains(&out, b" invalid-syscall-id\n"));
}

#[test]
fn serializer_renders_immediates_exactly() {
    let m = build(&[enc_addi(5, 0, 77)]);
    let out = print_model(&m).expect("serializes");
    // the constant 77 carries the data-flow identifier of address 0
    assert!(contains(&out, b"30000000 constd 2 77\n"));
}

#[test]
fn serializer_rejects_comment_operand() {
    let m = Model {
        lines: vec![
            Node::Comment(b"stray".to_vec()),
            Node::Bad { nid: 1, cond: 0, name: None },
        ],
        sequentials: vec![],
        bad_states: vec![1],
    };
    assert_eq!(print_model(&m), None);
}

#[test]
fn exit_code_zero_makes_nonzero_exit_unreachable() {
    let prog = [enc_addi(17, 0, 93), enc_addi(10, 0, 0), enc_ecall()];
    let trace = bad_trace(&prog, NONZERO_EXIT, 6);
    assert!(trace.iter().all(|b| !b));
}

#[test]
fn exit_code_nonzero_makes_nonzero_exit_reachable() {
    let prog = [enc_addi(17, 0, 93), enc_addi(10, 0, 7), enc_ecall()];
    let trace = bad_trace(&prog, NONZERO_EXIT, 4);
    assert!(!trace[0]);
    assert!(!trace[1]);
    assert!(trace[2]);
}

#[test]
fn unknown_syscall_number_is_flagged() {
    let prog = [enc_addi(17, 0, 99), enc_ecall()];
    let trace = bad_trace(&prog, INVALID_SYSCALL, 3);
    assert!(!trace[0]);
    assert!(trace[1]);
}

#[test]
fn recognized_syscall_number_is_not_flagged() {
    let prog = [enc_addi(17, 0, 93), enc_ecall()];
    let trace = bad_trace(&prog, INVALID_SYSCALL, 3);
    assert!(trace.iter().all(|b| !b));
}

#[test]
fn remainder_by_zero_is_flagged_exactly_when_divisor_can_be_zero() {
    // t1 stays zero, so the remainder instruction divides by zero at its step
    let prog = [enc_addi(5, 0, 6), enc_remu(7, 5, 6)];
    let trace = bad_trace(&prog, REM_BY_ZERO, 3);
    assert!(!trace[0]);
    assert!(trace[1]);

    // with a statically nonzero divisor the check stays unreachable
    let prog2 = [enc_addi(6, 0, 5), enc_remu(7, 5, 6)];
    let trace2 = bad_trace(&prog2, REM_BY_ZERO, 4);
    assert!(trace2.iter().all(|b| !b));
}

#[test]
fn division_check_stays_unreachable() {
    let prog = [enc_addi(5, 0, 6), enc_remu(7, 5, 6)];
    let trace = bad_trace(&prog, DIV_BY_ZERO, 4);
    assert!(trace.iter().all(|b| !b));
}

#[test]
fn control_flags_stay_one_hot() {
    // a two-instruction loop: set t0, jump back to the start
    let prog = [enc_addi(5, 0, 1), enc_jal(0, -4)];
    let m = build(&prog);
    let flags = flag_indices(&m);
    assert_eq!(flags.len(), 2);
    let mut sv = init_state(&m);
    for _ in 0..7 {
        let active = flags
            .iter()
            .filter(|f| sv[**f] == Value::Bit(true))
            .count();
        assert_eq!(active, 1);
        sv = step_model(&m, &sv);
    }
}

#[test]
fn branch_keeps_flags_one_hot() {
    // beq t0, zero, +8 skips the middle instruction; the closing jump keeps
    // control inside the program forever
    let prog = [enc_beq(5, 0, 8), enc_addi(5, 0, 1), enc_jal(0, -8)];
    let m = build(&prog);
    let flags = flag_indices(&m);
    assert_eq!(flags.len(), 3);
    let mut sv = init_state(&m);
    for _ in 0..7 {
        let active = flags
            .iter()
            .filter(|f| sv[**f] == Value::Bit(true))
            .count();
        assert_eq!(active, 1);
        sv = step_model(&m, &sv);
    }
}

#[test]
fn accumulator_selects_by_active_flag() {
    // two writes to the same register at ascending addresses
    let prog = [enc_addi(5, 0, 5), enc_addi(5, 0, 9)];
    let m = build(&prog);
    let t0 = state_index(&m, b"t0");
    let sv0 = init_state(&m);
    assert_eq!(sv0[t0], Value::Word(0));
    let sv1 = step_model(&m, &sv0);
    assert_eq!(sv1[t0], Value::Word(5));
    let sv2 = step_model(&m, &sv1);
    assert_eq!(sv2[t0], Value::Word(9));
    let sv3 = step_model(&m, &sv2);
    assert_eq!(sv3[t0], Value::Word(9));
}

#[test]
fn memory_store_and_load_round_trip() {
    // sd t0, 16(zero); ld t1, 16(zero)
    let prog = [
        enc_addi(5, 0, 42),
        enc_sd(0, 5, 16),
        enc_ld(6, 0, 16),
    ];
    let m = build(&prog);
    let t1 = state_index(&m, b"t1");
    let mut sv = init_state(&m);
    for _ in 0..3 {
        sv = step_model(&m, &sv);
    }
    assert_eq!(sv[t1], Value::Word(42));
}

#[test]
fn arithmetic_flows_compute() {
    // t0 = 7; t1 = 3; t2 = t0 + t1; t3 = t0 - t1; t4 = lui 1
    let prog = [
        enc_addi(5, 0, 7),
        enc_addi(6, 0, 3),
        enc_add(7, 5, 6),
        enc_sub(28, 5, 6),
        enc_lui(29, 1),
    ];
    let m = build(&prog);
    let mut sv = init_state(&m);
    for _ in 0..5 {
        sv = step_model(&m, &sv);
    }
    assert_eq!(sv[state_index(&m, b"t2")], Value::Word(10));
    assert_eq!(sv[state_index(&m, b"t3")], Value::Word(4));
    assert_eq!(sv[state_index(&m, b"t4")], Value::Word(1 << 12));
}

#[test]
fn zero_register_writes_emit_no_flow_nodes() {
    let prog = [enc_addi(0, 0, 5), enc_add(0, 5, 6)];
    let m = build(&prog);
    let out = print_model(&m).expect("serializes");
    // neither the immediate constant nor any data-flow node of the two
    // instructions appears: their identifier blocks stay empty
    assert!(!contains(&out, b"30000000"));
    assert!(!contains(&out, b"30000400"));
}

#[test]
fn zero_register_reads_as_zero_at_every_step() {
    let prog = [enc_addi(0, 0, 5), enc_addi(5, 0, 3)];
    let m = build(&prog);
    // the zero register's node is the word constant with identifier 200
    let mut zero_idx = None;
    for (i, n) in m.lines.iter().enumerate() {
        if let Node::Const { nid: 200, .. } = n {
            zero_idx = Some(i);
        }
    }
    let zero_idx = zero_idx.expect("zero-register constant exists");
    let mut sv = init_state(&m);
    for _ in 0..4 {
        let vals = eval_all(&m, &sv);
        assert_eq!(vals[zero_idx], Value::Word(0));
        sv = step_model(&m, &sv);
    }
}

#[test]
fn mid_program_syscall_gets_a_return_latch_and_enters_kernel_mode() {
    // the system call is not the last instruction, so its successor gets a
    // per-callsite latch; the exit call then drives the kernel-mode flag high
    let prog = [enc_addi(17, 0, 93), enc_ecall(), enc_jal(0, -4)];
    let m = build(&prog);
    let latch = state_index(&m, b"kernel-mode-pc-flag-4");
    let kernel = state_index(&m, b"kernel-mode");
    let mut sv = init_state(&m);
    assert_eq!(sv[latch], Value::Bit(false));
    assert_eq!(sv[kernel], Value::Bit(false));
    sv = step_model(&m, &sv); // the ecall's flag is now active
    assert_eq!(sv[kernel], Value::Bit(false));
    sv = step_model(&m, &sv); // the exit call has taken effect
    assert_eq!(sv[latch], Value::Bit(true));
    assert_eq!(sv[kernel], Value::Bit(true));
    sv = step_model(&m, &sv); // an exit call never leaves kernel mode
    assert_eq!(sv[kernel], Value::Bit(true));
}

#[test]
fn jalr_return_pattern_is_accepted() {
    let prog = [enc_jalr(0, 1, 0)];
    assert!(generate_model(&program_of(&prog, 0)).is_ok());
}

#[test]
fn jalr_outside_return_pattern_is_rejected() {
    let prog = [enc_addi(5, 0, 1), enc_jalr(1, 1, 0)];
    let err = generate_model(&program_of(&prog, 0)).unwrap_err();
    assert_eq!(err, ModelError::UnsupportedJalr { address: 4 });
}

#[test]
fn unimplemented_opcode_is_rejected() {
    let prog = [enc_mul(5, 6, 7)];
    let err = generate_model(&program_of(&prog, 0)).unwrap_err();
    assert_eq!(err, ModelError::UnsupportedInstruction { address: 0 });
}

#[test]
fn invalid_word_is_rejected_at_its_address() {
    let prog = [enc_addi(5, 0, 1), 0xffff_ffff];
    let err = generate_model(&program_of(&prog, 0)).unwrap_err();
    assert_eq!(err, ModelError::InvalidWord { address: 4 });
}

#[test]
fn too_many_edges_into_one_address_overrun_its_identifier_block() {
    // one hundred jumps all landing on address 0 need more than the hundred
    // identifiers its control-fold block reserves; ninety-nine still fit
    let over: Vec<u32> = (0..100).map(|k| enc_jal(0, -4 * k)).collect();
    let err = generate_model(&program_of(&over, 0)).unwrap_err();
    assert_eq!(err, ModelError::ControlBudget { address: 0 });

    let fits: Vec<u32> = (0..99).map(|k| enc_jal(0, -4 * k)).collect();
    assert!(generate_model(&program_of(&fits, 0)).is_ok());
}

#[test]
fn oversized_address_space_is_rejected() {
    let prog = [enc_ecall()];
    let err = generate_model(&program_of(&prog, 200_000)).unwrap_err();
    assert_eq!(err, ModelError::AddressSpace);
}

#[test]
fn nonzero_load_address_shifts_identifiers() {
    let prog = [enc_addi(5, 0, 77)];
    let m = generate_model(&program_of(&prog, 0x100)).expect("translates");
    let out = print_model(&m).expect("serializes");
    assert!(contains(&out, b"10025600 state 1 pc=0x100\n"));
    assert!(contains(&out, b"30025600 constd 2 77\n"));
}
