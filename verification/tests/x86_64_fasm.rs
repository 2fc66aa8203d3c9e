use lib::backend::{compile, CodeGen, InitData, Instruction, Operator, UninitData, X86_64};
use std::collections::HashMap;

fn emit(instruction: &Instruction) -> String {
    let mut out = String::new();
    X86_64::instruction(&mut out, "fn_f", instruction);
    out
}

fn comment(instruction: &Instruction) -> String {
    format!("  ; -- {:?}\n", instruction)
}

fn code(instruction: &Instruction) -> String {
    let text = emit(instruction);
    let head = comment(instruction);
    assert!(text.starts_with(&head));
    text[head.len()..].to_string()
}

#[test]
fn encode_name_plain() {
    assert_eq!(X86_64::encode_name("main"), "fn_main");
    assert_eq!(X86_64::encode_name(""), "fn_");
}

#[test]
fn encode_name_escapes() {
    assert_eq!(X86_64::encode_name("a.b"), "fn_a_dot_b");
    assert_eq!(X86_64::encode_name("Vec<u8>"), "fn_Vec_u8_");
    assert_eq!(X86_64::encode_name("foo_bar"), "fn_foo__bar");
    assert_eq!(X86_64::encode_name("a+b*c&d"), "fn_a_plus_b_star_c_amp_d");
    assert_eq!(X86_64::encode_name("x::y z"), "fn_x__y_z");
    assert_eq!(X86_64::encode_name("[T]"), "fn__lbrace_T_rbrace_");
}

#[test]
fn encoded_name_has_no_reserved_char() {
    let name = X86_64::encode_name("<a.b>::[c d]+*&_");
    for c in name.chars() {
        assert!(!". <>+*&:[]".contains(c), "{} in {}", c, name);
    }
}

#[test]
fn comment_line_is_debug_form() {
    let i = Instruction::FrameReserve { bytes: 16 };
    assert!(emit(&i).starts_with("  ; -- FrameReserve { bytes: 16 }\n"));
    let c = Instruction::Call(String::from("main"));
    assert!(emit(&c).starts_with("  ; -- Call(\"main\")\n"));
}

#[test]
fn frame_reserve_and_end_block() {
    assert_eq!(code(&Instruction::FrameReserve { bytes: 24 }), "  sub qword [frame_end_ptr], 24\n");
    assert_eq!(
        code(&Instruction::EndBlock { bytes_to_free: 40 }),
        "  add qword [frame_end_ptr], 40\n"
    );
    assert_eq!(code(&Instruction::StartBlock), "");
}

#[test]
fn push_from_frame() {
    assert_eq!(
        code(&Instruction::PushFromFrame { offset_from_end: 3, bytes: 2 }),
        "  mov rax, [frame_end_ptr]\n  add rax, 24\n\
         \x20 mov rbx, [rax]\n  push rbx\n  add rax, 8\n\
         \x20 mov rbx, [rax]\n  push rbx\n  add rax, 8\n"
    );
    assert_eq!(
        code(&Instruction::PushFromFrame { offset_from_end: 0, bytes: 0 }),
        "  mov rax, [frame_end_ptr]\n  add rax, 0\n"
    );
}

#[test]
fn push_ptr_to_frame() {
    assert_eq!(
        code(&Instruction::PushPtrToFrame { offset_from_end: 5, bytes: 1 }),
        "  mov rax, [frame_end_ptr]\n  add rax, 40\n  push rax\n"
    );
}

#[test]
fn push_to_frame() {
    let one = "  pop  rax\n  sub  qword [frame_end_ptr], 8\n  mov  rbx, [frame_end_ptr]\n  mov  [rbx], rax\n";
    assert_eq!(code(&Instruction::PushToFrame { quad_words: 2 }), format!("{}{}", one, one));
    assert_eq!(code(&Instruction::PushToFrame { quad_words: 0 }), "");
}

#[test]
fn frame_ptr_to_frame_reserve() {
    assert_eq!(
        code(&Instruction::FramePtrToFrameReserve { offset: 8, size: 3, width: 8 }),
        "  mov  rax, [frame_start_ptr]\n  sub  rax, 40\n\
         \x20 sub  qword [frame_end_ptr], 8\n  mov  rbx, [frame_end_ptr]\n  mov  [rbx], rax\n"
    );
    assert_eq!(
        code(&Instruction::FramePtrToFrameReserve { offset: 8, size: 0, width: 8 }),
        "  mov  rax, [frame_start_ptr]\n\
         \x20 sub  qword [frame_end_ptr], 8\n  mov  rbx, [frame_end_ptr]\n  mov  [rbx], rax\n"
    );
}

#[test]
fn binary_operators() {
    let op = |op: Operator| code(&Instruction::Operator { op, size: None });
    assert_eq!(op(Operator::Plus), "  pop  rbx\n  pop  rax\n  add  rax, rbx\n  push rax\n");
    assert_eq!(op(Operator::Minus), "  pop  rbx\n  pop  rax\n  sub  rax, rbx\n  push rax\n");
    assert_eq!(op(Operator::Star), "  pop  rcx\n  pop  rax\n  mul  rcx\n  push rax\n");
    assert_eq!(
        op(Operator::Slash),
        "  mov  rdx, 0\n  pop  rcx\n  pop  rax\n  div  rcx\n  push rax\n"
    );
    assert_eq!(
        op(Operator::Modulo),
        "  mov  rdx, 0\n  pop  rcx\n  pop  rax\n  div  rcx\n  push rdx\n"
    );
    assert_eq!(op(Operator::Ampersand), "  pop  rbx\n  pop  rax\n  and  rax, rbx\n  push rax\n");
    assert_eq!(op(Operator::Pipe), "  pop  rbx\n  pop  rax\n  or   rax, rbx\n  push rax\n");
    assert_eq!(op(Operator::Caret), "  pop  rbx\n  pop  rax\n  xor  rax, rbx\n  push rax\n");
    assert_eq!(op(Operator::ShiftLeft), "  pop  rcx\n  pop  rax\n  shl  rax, cl\n  push rax\n");
    assert_eq!(op(Operator::ShiftRight), "  pop  rcx\n  pop  rax\n  shr  rax, cl\n  push rax\n");
}

#[test]
fn comparisons() {
    let cmp = |cmov: &str| {
        format!(
            "  mov  rcx, 0\n  mov  rdx, 1\n  pop  rbx\n  pop  rax\n  cmp  rax, rbx\n  {} rcx, rdx\n  push rcx\n",
            cmov
        )
    };
    let op = |op: Operator| code(&Instruction::Operator { op, size: None });
    assert_eq!(op(Operator::GreaterEqual), cmp("cmovge"));
    assert_eq!(op(Operator::GreaterThan), cmp("cmovg"));
    assert_eq!(op(Operator::LessThan), cmp("cmovl"));
    assert_eq!(op(Operator::LessEqual), cmp("cmovle"));
    assert_eq!(op(Operator::Equal), cmp("cmove"));
    assert_eq!(op(Operator::BangEqual), cmp("cmovne"));
}

#[test]
fn read_values() {
    assert_eq!(
        code(&Instruction::Operator { op: Operator::Read, size: Some((2, 8)) }),
        "  pop  rax\n  mov  rbx, 0\n  mov  rbx, [rax]\n  push rbx\n\
         \x20 add  rax, 8\n  mov  rbx, 0\n  mov  rbx, [rax]\n  push rbx\n"
    );
    assert_eq!(
        code(&Instruction::Operator { op: Operator::Read, size: Some((1, 1)) }),
        "  pop  rax\n  mov  rbx, 0\n  mov  bl, [rax]\n  push rbx\n"
    );
    assert_eq!(
        code(&Instruction::Operator { op: Operator::Read, size: Some((1, 2)) }),
        "  pop  rax\n  mov  rbx, 0\n  mov  bx, [rax]\n  push rbx\n"
    );
    assert_eq!(
        code(&Instruction::Operator { op: Operator::Read, size: Some((1, 3)) }),
        "  pop  rax\n  mov  rbx, 0\n  mov  ebx, [rax]\n  push rbx\n"
    );
    assert_eq!(code(&Instruction::Operator { op: Operator::Read, size: Some((0, 5)) }), "");
}

#[test]
fn write_values() {
    assert_eq!(
        code(&Instruction::Operator { op: Operator::Write, size: Some((3, 4)) }),
        "  pop  rax\n  add  rax, 8\n  pop  rbx\n  mov  [rax], ebx\n\
         \x20 sub  rax, 4\n  pop  rbx\n  mov  [rax], ebx\n\
         \x20 sub  rax, 4\n  pop  rbx\n  mov  [rax], ebx\n"
    );
    assert_eq!(
        code(&Instruction::Operator { op: Operator::Write, size: Some((1, 1)) }),
        "  pop  rax\n  add  rax, 0\n  pop  rbx\n  mov  [rax], bl\n"
    );
    assert_eq!(
        code(&Instruction::Operator { op: Operator::Write, size: Some((1, 2)) }),
        "  pop  rax\n  add  rax, 0\n  pop  rbx\n  mov  [rax], bx\n"
    );
    assert_eq!(
        code(&Instruction::Operator { op: Operator::Write, size: Some((1, 8)) }),
        "  pop  rax\n  add  rax, 0\n  pop  rbx\n  mov  [rax], rbx\n"
    );
    assert_eq!(code(&Instruction::Operator { op: Operator::Write, size: Some((0, 3)) }), "");
}

#[test]
fn jumps() {
    assert_eq!(code(&Instruction::Jump { dest_id: 7 }), "  jmp fn_f_jmp_dest_7\n");
    assert_eq!(
        code(&Instruction::JumpFalse { dest_id: 12 }),
        "  pop  rax\n  test rax, rax\n  jz fn_f_jmp_dest_12\n"
    );
    assert_eq!(code(&Instruction::JumpDest { id: 12 }), "fn_f_jmp_dest_12:\n");
}

#[test]
fn jump_reaches_its_destination() {
    let jump = code(&Instruction::Jump { dest_id: 3 });
    let dest = code(&Instruction::JumpDest { id: 3 });
    let other = code(&Instruction::JumpDest { id: 30 });
    let target = jump.trim_start_matches("  jmp ").trim_end();
    assert_eq!(format!("{}:\n", target), dest);
    assert_ne!(dest, other);
}

#[test]
fn pushes() {
    assert_eq!(code(&Instruction::PushU64(0)), "  push 0\n");
    assert_eq!(code(&Instruction::PushU64(u64::MAX)), "  push 18446744073709551615\n");
    assert_eq!(code(&Instruction::PushGlobal { id: String::from("str_0") }), "  push str_0\n");
}

#[test]
fn call() {
    assert_eq!(
        code(&Instruction::Call(String::from("print.int"))),
        "  mov rax, [frame_start_ptr]\n  sub  qword [frame_end_ptr], 8\n\
         \x20 mov  rbx, [frame_end_ptr]\n  mov  [rbx], rax\n  mov  rax, [frame_end_ptr]\n\
         \x20 mov  qword [frame_start_ptr], rax\n  call fn_print_dot_int ; -- print.int\n"
    );
}

#[test]
fn init_local_var_arr() {
    assert_eq!(
        code(&Instruction::InitLocalVarArr {
            offset_to_var: 8,
            offset_to_data: 16,
            data_size: 4,
            data_width: 8,
        }),
        "  mov rax, [frame_start_ptr]\n  sub rax, 24\n  mov rbx, [frame_start_ptr]\n\
         \x20 sub rbx, 56\n  mov [rax], rbx\n  sub rax, 8\n  mov rbx, 4\n  mov [rax], rbx\n"
    );
}

#[test]
fn syscalls() {
    assert_eq!(code(&Instruction::Syscall(0)), "  pop  rax\n  syscall\n  push rax\n");
    assert_eq!(
        code(&Instruction::Syscall(3)),
        "  pop  rax\n  pop  rdi\n  pop  rsi\n  pop  rdx\n  syscall\n  push rax\n"
    );
    let all = "  pop  rax\n  pop  rdi\n  pop  rsi\n  pop  rdx\n  pop  r10\n  pop  r8\n  pop  r9\n  syscall\n  push rax\n";
    assert_eq!(code(&Instruction::Syscall(6)), all);
    assert_eq!(code(&Instruction::Syscall(10)), all);
}

#[test]
fn return_instruction() {
    assert_eq!(
        code(&Instruction::Return),
        "  mov  rax, [frame_start_ptr]\n  push qword [rax-8]\n  mov  [frame_end_ptr], rax\n\
         \x20 add  qword [frame_end_ptr], 8\n  mov  rax, [rax]\n\
         \x20 mov  qword [frame_start_ptr], rax\n  ret\n"
    );
}

#[test]
fn every_instruction_text_is_whole_lines() {
    let all = vec![
        Instruction::StartBlock,
        Instruction::PushToFrame { quad_words: 0 },
        Instruction::Operator { op: Operator::Read, size: Some((0, 8)) },
        Instruction::Syscall(2),
        Instruction::Return,
    ];
    for i in &all {
        let text = emit(i);
        assert!(!text.is_empty());
        assert!(text.ends_with('\n'));
        assert!(text.starts_with("  ; -- "));
    }
}

#[test]
fn generate_function_text() {
    let mut out = String::new();
    let body = vec![Instruction::PushU64(1), Instruction::Return];
    X86_64::generate_function(&mut out, "std.exit", &body);
    let mut expected = String::from(
        "; fn std.exit\nfn_std_dot_exit:\n  pop rax\n  sub  qword [frame_end_ptr], 8\n\
         \x20 mov  rbx, [frame_end_ptr]\n  mov  [rbx], rax\n",
    );
    for i in &body {
        X86_64::instruction(&mut expected, "fn_std_dot_exit", i);
    }
    assert_eq!(out, expected);
}

#[test]
fn generate_function_is_instruction_by_instruction() {
    let a = vec![Instruction::PushU64(1), Instruction::Jump { dest_id: 0 }];
    let b = vec![Instruction::JumpDest { id: 0 }, Instruction::Return];
    let mut whole = String::new();
    let mut ab = a.clone();
    ab.extend(b.clone());
    X86_64::generate_function(&mut whole, "g", &ab);
    let mut first = String::new();
    X86_64::generate_function(&mut first, "g", &a);
    let mut rest = String::new();
    for i in &b {
        X86_64::instruction(&mut rest, "fn_g", i);
    }
    assert_eq!(whole, format!("{}{}", first, rest));
}

#[test]
fn open_text() {
    let mut out = String::from("x");
    X86_64::open(&mut out);
    assert_eq!(out, "xformat ELF64 executable\nsegment readable executable\n");
}

#[test]
fn entry_text() {
    let mut out = String::new();
    X86_64::entry(&mut out);
    let mut call = String::new();
    X86_64::instruction(&mut call, "", &Instruction::Call(String::from("main")));
    let expected = format!(
        "entry _start\n_start: \n  mov  qword [frame_start_ptr], frame_stack_end\n\
         \x20 mov  qword [frame_end_ptr], frame_stack_end\n{}\
         exit:\n  mov  rax, 60\n  mov  rdi, 0\n  syscall\n",
        call
    );
    assert_eq!(out, expected);
    assert!(out.contains("  call fn_main ; -- main\n"));
}

#[test]
fn init_data_string() {
    let mut data = HashMap::new();
    data.insert(String::from("s0"), InitData::String(String::from("Hi\n")));
    let mut out = String::new();
    X86_64::init_data(&mut out, &data);
    assert_eq!(out, "\nsegment readable writeable\n  s0: db 0x48, 0x69, 0xa\n");
}

#[test]
fn init_data_empty_string_and_array() {
    let mut data = HashMap::new();
    data.insert(String::from("e"), InitData::String(String::new()));
    let mut out = String::new();
    X86_64::init_data(&mut out, &data);
    assert_eq!(out, "\nsegment readable writeable\n  e: db 0x00\n");

    let mut data = HashMap::new();
    data.insert(String::from("arr"), InitData::Arr { size: 3, pointer: String::from("arr_data") });
    let mut out = String::new();
    X86_64::init_data(&mut out, &data);
    assert_eq!(out, "\nsegment readable writeable\n  arr: dq 3, arr_data\n");
}

#[test]
fn init_data_utf8_bytes() {
    let mut data = HashMap::new();
    data.insert(String::from("u"), InitData::String(String::from("é\u{0}")));
    let mut out = String::new();
    X86_64::init_data(&mut out, &data);
    assert_eq!(out, "\nsegment readable writeable\n  u: db 0xc3, 0xa9, 0x0\n");
}

#[test]
fn init_data_lists_every_global_once() {
    let mut data = HashMap::new();
    data.insert(String::from("a"), InitData::String(String::from("A")));
    data.insert(String::from("b"), InitData::Arr { size: 0, pointer: String::from("p") });
    let mut out = String::new();
    X86_64::init_data(&mut out, &data);
    let lines: Vec<&str> = out.lines().collect();
    assert_eq!(lines.len(), 4);
    assert_eq!(lines[0], "");
    assert_eq!(lines[1], "segment readable writeable");
    let mut rest = vec![lines[2], lines[3]];
    rest.sort();
    assert_eq!(rest, vec!["  a: db 0x41", "  b: dq 0, p"]);
}

#[test]
fn uninit_data_text() {
    let mut data = HashMap::new();
    data.insert(String::from("buf"), UninitData::Region(64));
    let mut out = String::new();
    X86_64::uninit_data(&mut out, &data);
    assert_eq!(
        out,
        "segment readable writeable\n  frame_start_ptr: rq 1\n  frame_end_ptr: rq 1\n\
         \x20 frame_stack: rq 1048576\n  frame_stack_end:\n  buf: rq 64\n"
    );
    let mut out = String::new();
    X86_64::uninit_data(&mut out, &HashMap::new());
    assert!(out.ends_with("  frame_stack_end:\n"));
}

#[test]
fn compile_program() {
    let functions = vec![(
        "main",
        vec![Instruction::PushU64(0), Instruction::Syscall(0), Instruction::Return],
    )];
    let mut init = HashMap::new();
    init.insert(String::from("msg"), InitData::String(String::from("ok")));
    let mut uninit = HashMap::new();
    uninit.insert(String::from("buf"), UninitData::Region(2));
    let text = compile::<X86_64>(&functions, &init, &uninit);

    let mut expected = String::new();
    X86_64::open(&mut expected);
    X86_64::generate_function(&mut expected, "main", &functions[0].1);
    X86_64::entry(&mut expected);
    X86_64::init_data(&mut expected, &init);
    X86_64::uninit_data(&mut expected, &uninit);
    assert_eq!(text, expected);
    assert!(text.starts_with("format ELF64 executable\nsegment readable executable\n; fn main\nfn_main:\n"));
    assert!(text.ends_with("  buf: rq 2\n"));
    assert!(text.contains("\nsegment readable writeable\n  msg: db 0x6f, 0x6b\n"));
}

#[test]
fn compile_without_functions_or_data() {
    let text = compile::<X86_64>(&Vec::new(), &HashMap::new(), &HashMap::new());
    assert!(text.starts_with("format ELF64 executable\nsegment readable executable\nentry _start\n"));
    assert!(text.ends_with("  frame_stack_end:\n"));
}

#[test]
fn can_emit_instructions() {
    assert!(X86_64::can_emit(&Instruction::Return));
    assert!(X86_64::can_emit(&Instruction::Operator { op: Operator::Plus, size: None }));
    assert!(!X86_64::can_emit(&Instruction::Operator { op: Operator::Unary { symbol: '-' }, size: None }));
    assert!(!X86_64::can_emit(&Instruction::Operator { op: Operator::Read, size: None }));
    assert!(!X86_64::can_emit(&Instruction::Operator { op: Operator::Plus, size: Some((1, 8)) }));
    assert!(X86_64::can_emit(&Instruction::Operator { op: Operator::Read, size: Some((1, 3)) }));
    assert!(!X86_64::can_emit(&Instruction::Operator { op: Operator::Read, size: Some((1, 4)) }));
    assert!(X86_64::can_emit(&Instruction::Operator { op: Operator::Read, size: Some((0, 4)) }));
    assert!(X86_64::can_emit(&Instruction::Operator { op: Operator::Write, size: Some((1, 4)) }));
    assert!(!X86_64::can_emit(&Instruction::Operator { op: Operator::Write, size: Some((1, 3)) }));
    assert!(!X86_64::can_emit(&Instruction::PushFromFrame { offset_from_end: usize::MAX, bytes: 0 }));
    assert!(!X86_64::can_emit(&Instruction::Syscall(usize::MAX)));
    assert!(!X86_64::can_emit(&Instruction::FramePtrToFrameReserve {
        offset: usize::MAX - 15,
        size: 2,
        width: 1,
    }));
    assert!(X86_64::can_emit(&Instruction::FramePtrToFrameReserve {
        offset: usize::MAX - 15,
        size: 0,
        width: 1,
    }));
}

#[test]
fn call_reaches_function_label() {
    let mut definition = String::new();
    X86_64::generate_function(&mut definition, "Vec<u8>::len", &[Instruction::Return]);
    let label_line = definition.lines().nth(1).unwrap();
    let call = code(&Instruction::Call(String::from("Vec<u8>::len")));
    let call_line = call.lines().last().unwrap();
    let target = call_line.trim_start_matches("  call ").split(" ; -- ").next().unwrap();
    assert_eq!(format!("{}:", target), label_line);
    assert_eq!(label_line, "fn_Vec_u8___len:");
}
