//! The x86-64 backend: flat-assembler source for a static ELF64 executable.

use vstd::prelude::*;
use vstd::utf8::encode_utf8;
use vstd::string::StringExecFns;

use super::instruction::{
    debug_text, instruction_debug_text, InitData, Instruction, Operator, SpecInitData,
    SpecInstruction, UninitData,
};
use super::text::{
    decimal, hex_prefixed, line, push_char, repeat, write_decimal, write_hex_prefixed, write_line,
    write_line_decimal, write_str,
};
use super::{instruction_views, lists_map, map_entries, CodeGen};
use std::collections::HashMap;

verus! {

/// The x86-64 target, emitting flat-assembler (fasm) syntax.
pub struct X86_64;

/// The label text that stands for one character of a function name.
pub open spec fn escape_char(c: char) -> Seq<char> {
    if c == '.' {
        "_dot_"@
    } else if c == '<' || c == '>' || c == ' ' || c == ':' {
        seq!['_']
    } else if c == '+' {
        "_plus_"@
    } else if c == '*' {
        "_star_"@
    } else if c == '&' {
        "_amp_"@
    } else if c == '_' {
        "__"@
    } else if c == '[' {
        "_lbrace_"@
    } else if c == ']' {
        "_rbrace_"@
    } else {
        seq![c]
    }
}

/// The label text of a whole name: each character escaped in turn.
pub open spec fn escape(s: Seq<char>) -> Seq<char>
    decreases s.len(),
{
    if s.len() == 0 {
        Seq::empty()
    } else {
        escape(s.drop_last()) + escape_char(s.last())
    }
}

/// The assembler label of a function: `fn_` followed by its escaped name.
pub open spec fn encoded_name(label: Seq<char>) -> Seq<char> {
    "fn_"@ + escape(label)
}

/// `pop_line`, then pop the left operand into `rax`, apply `op_line`, and
/// push `rax`: the code of the arithmetic, bitwise and shift operators.
pub open spec fn arith_text(pop_line: Seq<char>, op_line: Seq<char>) -> Seq<char> {
    line(pop_line) + line("  pop  rax"@) + line(op_line) + line("  push rax"@)
}

/// Unsigned division of the two topmost values; `push_line` pushes the
/// quotient (`rax`) or the remainder (`rdx`).
pub open spec fn division_text(push_line: Seq<char>) -> Seq<char> {
    line("  mov  rdx, 0"@) + line("  pop  rcx"@) + line("  pop  rax"@) + line("  div  rcx"@)
        + line(push_line)
}

/// Comparison of the two topmost values; `cmov_line` moves 1 into the result
/// when the condition holds, else it stays 0.
pub open spec fn comparison_text(cmov_line: Seq<char>) -> Seq<char> {
    line("  mov  rcx, 0"@) + line("  mov  rdx, 1"@) + line("  pop  rbx"@) + line("  pop  rax"@)
        + line("  cmp  rax, rbx"@) + line(cmov_line) + line("  push rcx"@)
}

/// The code of an operator applied to the two topmost stack values.
pub open spec fn binary_operator_text(op: Operator) -> Seq<char> {
    match op {
        Operator::Plus => arith_text("  pop  rbx"@, "  add  rax, rbx"@),
        Operator::Minus => arith_text("  pop  rbx"@, "  sub  rax, rbx"@),
        Operator::Star => arith_text("  pop  rcx"@, "  mul  rcx"@),
        Operator::Slash => division_text("  push rax"@),
        Operator::Modulo => division_text("  push rdx"@),
        Operator::GreaterEqual => comparison_text("  cmovge rcx, rdx"@),
        Operator::GreaterThan => comparison_text("  cmovg rcx, rdx"@),
        Operator::LessThan => comparison_text("  cmovl rcx, rdx"@),
        Operator::LessEqual => comparison_text("  cmovle rcx, rdx"@),
        Operator::Equal => comparison_text("  cmove rcx, rdx"@),
        Operator::BangEqual => comparison_text("  cmovne rcx, rdx"@),
        Operator::Ampersand => arith_text("  pop  rbx"@, "  and  rax, rbx"@),
        Operator::Pipe => arith_text("  pop  rbx"@, "  or   rax, rbx"@),
        Operator::Caret => arith_text("  pop  rbx"@, "  xor  rax, rbx"@),
        Operator::ShiftLeft => arith_text("  pop  rcx"@, "  shl  rax, cl"@),
        Operator::ShiftRight => arith_text("  pop  rcx"@, "  shr  rax, cl"@),
        _ => Seq::empty(),
    }
}

/// Whether `op` is one of the operators on two stack values.
pub open spec fn is_binary_operator(op: Operator) -> bool {
    !(op is Unary || op is Read || op is Write)
}

/// The part of `rbx` that a load of `width` bytes fills.
pub open spec fn read_register(width: usize) -> Seq<char> {
    if width == 1 {
        "bl"@
    } else if width == 2 {
        "bx"@
    } else if width == 3 {
        "ebx"@
    } else {
        "rbx"@
    }
}

/// The widths for which a load has a register.
pub open spec fn is_read_width(width: usize) -> bool {
    width == 1 || width == 2 || width == 3 || width == 8
}

/// The part of `rbx` that a store of `width` bytes writes.
pub open spec fn write_register(width: usize) -> Seq<char> {
    if width == 1 {
        "bl"@
    } else if width == 2 {
        "bx"@
    } else if width == 4 {
        "ebx"@
    } else {
        "rbx"@
    }
}

/// The widths for which a store has a register.
pub open spec fn is_write_width(width: usize) -> bool {
    width == 1 || width == 2 || width == 4 || width == 8
}

/// Loading one value into `rbx` from the address in `rax`, and pushing it.
pub open spec fn load_text(width: usize) -> Seq<char> {
    line("  mov  rbx, 0"@) + line("  mov  "@ + read_register(width) + ", [rax]"@) + line(
        "  push rbx"@,
    )
}

/// Loading `size` values of `width` bytes from consecutive addresses,
/// starting at the popped address: each is pushed in turn.
pub open spec fn read_text(size: usize, width: usize) -> Seq<char> {
    if size == 0 {
        Seq::empty()
    } else {
        line("  pop  rax"@) + load_text(width) + repeat(
            line("  add  rax, "@ + decimal(width as nat)) + load_text(width),
            (size - 1) as nat,
        )
    }
}

/// Storing `size` values of `width` bytes: the last value popped goes to the
/// lowest address, so the addresses are walked downwards.
pub open spec fn write_text(size: usize, width: usize) -> Seq<char> {
    if size == 0 {
        Seq::empty()
    } else {
        line("  pop  rax"@) + line("  add  rax, "@ + decimal(((size - 1) * width) as nat)) + line(
            "  pop  rbx"@,
        ) + line("  mov  [rax], "@ + write_register(width)) + repeat(
            line("  sub  rax, "@ + decimal(width as nat)) + line("  pop  rbx"@) + line(
                "  mov  [rax], "@ + write_register(width),
            ),
            (size - 1) as nat,
        )
    }
}

/// The registers that carry a system call's number and arguments, in order.
pub open spec fn syscall_register(i: nat) -> Seq<char> {
    if i == 0 {
        "rax"@
    } else if i == 1 {
        "rdi"@
    } else if i == 2 {
        "rsi"@
    } else if i == 3 {
        "rdx"@
    } else if i == 4 {
        "r10"@
    } else if i == 5 {
        "r8"@
    } else {
        "r9"@
    }
}

/// Popping into the first `k` system-call registers.
pub open spec fn syscall_pops(k: nat) -> Seq<char>
    decreases k,
{
    if k == 0 {
        Seq::empty()
    } else {
        syscall_pops((k - 1) as nat) + line("  pop  "@ + syscall_register((k - 1) as nat))
    }
}

/// How many registers a system call with `n` arguments fills: the number and
/// the arguments, but at most the seven that exist.
pub open spec fn syscall_register_count(n: usize) -> nat {
    if n + 1 <= 7 {
        (n + 1) as nat
    } else {
        7
    }
}

/// The label of jump destination `id` in the function labelled `hash`.
pub open spec fn jump_label(hash: Seq<char>, id: usize) -> Seq<char> {
    hash + "_jmp_dest_"@ + decimal(id as nat)
}

/// Moving the value in `rax` onto the frame stack.
pub open spec fn push_rax_to_frame_text() -> Seq<char> {
    line("  sub  qword [frame_end_ptr], 8"@) + line("  mov  rbx, [frame_end_ptr]"@) + line(
        "  mov  [rbx], rax"@,
    )
}

/// A call: save the frame start on the frame stack, start a new frame at
/// its end, and call the function's label.
pub open spec fn call_text(func: Seq<char>) -> Seq<char> {
    line("  mov rax, [frame_start_ptr]"@) + push_rax_to_frame_text() + line(
        "  mov  rax, [frame_end_ptr]"@,
    ) + line("  mov  qword [frame_start_ptr], rax"@) + line(
        "  call "@ + encoded_name(func) + " ; -- "@ + func,
    )
}

/// The code of one instruction, after its comment line, inside the function
/// whose label is `hash`.
pub open spec fn instruction_code(hash: Seq<char>, instruction: SpecInstruction) -> Seq<char> {
    match instruction {
        SpecInstruction::FrameReserve { bytes } => line(
            "  sub qword [frame_end_ptr], "@ + decimal(bytes as nat),
        ),
        SpecInstruction::PushFromFrame { offset_from_end, bytes } => line(
            "  mov rax, [frame_end_ptr]"@,
        ) + line("  add rax, "@ + decimal((offset_from_end * 8) as nat)) + repeat(
            line("  mov rbx, [rax]"@) + line("  push rbx"@) + line("  add rax, 8"@),
            bytes as nat,
        ),
        SpecInstruction::PushPtrToFrame { offset_from_end, .. } => line("  mov rax, [frame_end_ptr]"@)
            + line("  add rax, "@ + decimal((offset_from_end * 8) as nat)) + line("  push rax"@),
        SpecInstruction::PushToFrame { quad_words } => repeat(
            line("  pop  rax"@) + push_rax_to_frame_text(),
            quad_words as nat,
        ),
        SpecInstruction::FramePtrToFrameReserve { offset, size, width } => line(
            "  mov  rax, [frame_start_ptr]"@,
        ) + (if size > 0 {
            line("  sub  rax, "@ + decimal((offset + 16 + (size - 1) * width) as nat))
        } else {
            Seq::empty()
        }) + push_rax_to_frame_text(),
        SpecInstruction::StartBlock => Seq::empty(),
        SpecInstruction::EndBlock { bytes_to_free } => line(
            "  add qword [frame_end_ptr], "@ + decimal(bytes_to_free as nat),
        ),
        SpecInstruction::Operator { op, size } => match size {
            None => binary_operator_text(op),
            Some((size, width)) => match op {
                Operator::Read => read_text(size, width),
                Operator::Write => write_text(size, width),
                _ => Seq::empty(),
            },
        },
        SpecInstruction::Jump { dest_id } => line("  jmp "@ + jump_label(hash, dest_id)),
        SpecInstruction::JumpFalse { dest_id } => line("  pop  rax"@) + line("  test rax, rax"@) + line(
            "  jz "@ + jump_label(hash, dest_id),
        ),
        SpecInstruction::JumpDest { id } => line(jump_label(hash, id) + ":"@),
        SpecInstruction::PushU64(n) => line("  push "@ + decimal(n as nat)),
        SpecInstruction::PushGlobal { id } => line("  push "@ + id),
        SpecInstruction::Call(func) => call_text(func),
        SpecInstruction::InitLocalVarArr { offset_to_var, offset_to_data, data_size, data_width } => line(
            "  mov rax, [frame_start_ptr]"@,
        ) + line("  sub rax, "@ + decimal((offset_to_var + 16) as nat)) + line(
            "  mov rbx, [frame_start_ptr]"@,
        ) + line("  sub rbx, "@ + decimal((offset_to_data + 8 + data_size * data_width) as nat))
            + line("  mov [rax], rbx"@) + line("  sub rax, 8"@) + line(
            "  mov rbx, "@ + decimal(data_size as nat),
        ) + line("  mov [rax], rbx"@),
        SpecInstruction::Syscall(n) => syscall_pops(syscall_register_count(n)) + line("  syscall"@)
            + line("  push rax"@),
        SpecInstruction::Return => line("  mov  rax, [frame_start_ptr]"@) + line(
            "  push qword [rax-8]"@,
        ) + line("  mov  [frame_end_ptr], rax"@) + line("  add  qword [frame_end_ptr], 8"@) + line(
            "  mov  rax, [rax]"@,
        ) + line("  mov  qword [frame_start_ptr], rax"@) + line("  ret"@),
    }
}

/// The comment line that precedes the code of every instruction: the
/// instruction in its `Debug` form.
pub open spec fn comment_text(instruction: SpecInstruction) -> Seq<char> {
    line("  ; -- "@ + instruction_debug_text(instruction))
}

/// All the text emitted for one instruction.
pub open spec fn instruction_text(hash: Seq<char>, instruction: SpecInstruction) -> Seq<char> {
    comment_text(instruction) + instruction_code(hash, instruction)
}

/// The instructions that the backend can translate without an arithmetic
/// overflow or an impossible case: every operand whose offset it computes
/// fits in a `usize`, operators on two values come without a size, loads and
/// stores with one, and only of a width that has a register.
pub open spec fn can_emit(instruction: SpecInstruction) -> bool {
    match instruction {
        SpecInstruction::PushFromFrame { offset_from_end, .. } => offset_from_end * 8 <= usize::MAX,
        SpecInstruction::PushPtrToFrame { offset_from_end, .. } => offset_from_end * 8 <= usize::MAX,
        SpecInstruction::FramePtrToFrameReserve { offset, size, width } => size > 0 ==> offset + 16 + (
        size - 1) * width <= usize::MAX,
        SpecInstruction::Operator { op, size } => match size {
            None => is_binary_operator(op),
            Some((size, width)) => match op {
                Operator::Read => size > 0 ==> is_read_width(width),
                Operator::Write => size > 0 ==> is_write_width(width) && (size - 1) * width
                    <= usize::MAX,
                _ => false,
            },
        },
        SpecInstruction::InitLocalVarArr { offset_to_var, offset_to_data, data_size, data_width } => {
            &&& offset_to_var + 16 <= usize::MAX
            &&& offset_to_data + 8 + data_size * data_width <= usize::MAX
        },
        SpecInstruction::Syscall(n) => n < usize::MAX,
        _ => true,
    }
}

/// The text of a sequence of instructions, one after the other.
pub open spec fn instructions_text(hash: Seq<char>, instructions: Seq<SpecInstruction>) -> Seq<
    char,
>
    decreases instructions.len(),
{
    if instructions.len() == 0 {
        Seq::empty()
    } else {
        instructions_text(hash, instructions.drop_last()) + instruction_text(
            hash,
            instructions.last(),
        )
    }
}

/// A whole function: a comment with its name, its label, the saving of the
/// return address on the frame stack, and its instructions.
pub open spec fn function_text(label: Seq<char>, instructions: Seq<SpecInstruction>) -> Seq<char> {
    line("; fn "@ + label) + line(encoded_name(label) + ":"@) + line("  pop rax"@)
        + push_rax_to_frame_text() + instructions_text(encoded_name(label), instructions)
}

/// The file header: an ELF64 executable whose code segment follows.
pub open spec fn open_text() -> Seq<char> {
    line("format ELF64 executable"@) + line("segment readable executable"@)
}

/// The entry point: set up an empty frame stack, call `main`, then exit
/// with status 0.
pub open spec fn entry_text() -> Seq<char> {
    line("entry _start"@) + line("_start: "@) + line(
        "  mov  qword [frame_start_ptr], frame_stack_end"@,
    ) + line("  mov  qword [frame_end_ptr], frame_stack_end"@) + instruction_text(
        ""@,
        SpecInstruction::Call("main"@),
    ) + line("exit:"@) + line("  mov  rax, 60"@) + line("  mov  rdi, 0"@) + line("  syscall"@)
}

/// The bytes of a string as `{:#x}` numerals separated by `, `.
pub open spec fn byte_list(bytes: Seq<u8>) -> Seq<char>
    decreases bytes.len(),
{
    if bytes.len() == 0 {
        Seq::empty()
    } else if bytes.len() == 1 {
        hex_prefixed(bytes[0] as nat)
    } else {
        byte_list(bytes.drop_last()) + ", "@ + hex_prefixed(bytes.last() as nat)
    }
}

/// The definition of one initialised global: a string as its UTF-8 bytes
/// (a single zero byte when it is empty), an array as its length and the
/// label of its elements.
pub open spec fn init_entry_text(id: Seq<char>, data: SpecInitData) -> Seq<char> {
    match data {
        SpecInitData::String(s) => line(
            "  "@ + id + ": db "@ + (if s.len() == 0 {
                "0x00"@
            } else {
                byte_list(encode_utf8(s))
            }),
        ),
        SpecInitData::Arr { size, pointer } => line(
            "  "@ + id + ": dq "@ + decimal(size as nat) + ", "@ + pointer,
        ),
    }
}

/// The definitions of initialised globals, in the order listed.
pub open spec fn init_entries_text(listing: Seq<(Seq<char>, SpecInitData)>) -> Seq<char>
    decreases listing.len(),
{
    if listing.len() == 0 {
        Seq::empty()
    } else {
        init_entries_text(listing.drop_last()) + init_entry_text(
            listing.last().0,
            listing.last().1,
        )
    }
}

/// The initialised data segment.
pub open spec fn init_data_text(listing: Seq<(Seq<char>, SpecInitData)>) -> Seq<char> {
    line(Seq::empty()) + line("segment readable writeable"@) + init_entries_text(listing)
}

/// The reservation of one uninitialised global.
pub open spec fn uninit_entry_text(id: Seq<char>, data: UninitData) -> Seq<char> {
    match data {
        UninitData::Region(size) => line("  "@ + id + ": rq "@ + decimal(size as nat)),
    }
}

/// The reservations of uninitialised globals, in the order listed.
pub open spec fn uninit_entries_text(listing: Seq<(Seq<char>, UninitData)>) -> Seq<char>
    decreases listing.len(),
{
    if listing.len() == 0 {
        Seq::empty()
    } else {
        uninit_entries_text(listing.drop_last()) + uninit_entry_text(
            listing.last().0,
            listing.last().1,
        )
    }
}

/// The uninitialised data segment: the frame pointers and a frame stack of
/// 1048576 quad words, then the program's globals.
pub open spec fn uninit_data_text(listing: Seq<(Seq<char>, UninitData)>) -> Seq<char> {
    line("segment readable writeable"@) + line("  frame_start_ptr: rq 1"@) + line(
        "  frame_end_ptr: rq 1"@,
    ) + line("  frame_stack: rq 1048576"@) + line("  frame_stack_end:"@) + uninit_entries_text(
        listing,
    )
}

/// Appends the code of an arithmetic, bitwise or shift operator.
fn write_arith(out: &mut String, pop_line: &str, op_line: &str)
    ensures
        final(out)@ == old(out)@ + arith_text(pop_line@, op_line@),
{
    let ghost start = out@;
    write_line(out, pop_line);
    write_line(out, "  pop  rax");
    write_line(out, op_line);
    write_line(out, "  push rax");
    assert(out@ =~= start + arith_text(pop_line@, op_line@));
}

/// Appends the code of a division.
fn write_division(out: &mut String, push_line: &str)
    ensures
        final(out)@ == old(out)@ + division_text(push_line@),
{
    let ghost start = out@;
    write_line(out, "  mov  rdx, 0");
    write_line(out, "  pop  rcx");
    write_line(out, "  pop  rax");
    write_line(out, "  div  rcx");
    write_line(out, push_line);
    assert(out@ =~= start + division_text(push_line@));
}

/// Appends the code of a comparison.
fn write_comparison(out: &mut String, cmov_line: &str)
    ensures
        final(out)@ == old(out)@ + comparison_text(cmov_line@),
{
    let ghost start = out@;
    write_line(out, "  mov  rcx, 0");
    write_line(out, "  mov  rdx, 1");
    write_line(out, "  pop  rbx");
    write_line(out, "  pop  rax");
    write_line(out, "  cmp  rax, rbx");
    write_line(out, cmov_line);
    write_line(out, "  push rcx");
    assert(out@ =~= start + comparison_text(cmov_line@));
}

/// Appends the code of an operator on the two topmost stack values.
fn write_binary_operator(out: &mut String, op: &Operator)
    requires
        is_binary_operator(*op),
    ensures
        final(out)@ == old(out)@ + binary_operator_text(*op),
{
    match op {
        Operator::Plus => write_arith(out, "  pop  rbx", "  add  rax, rbx"),
        Operator::Minus => write_arith(out, "  pop  rbx", "  sub  rax, rbx"),
        Operator::Star => write_arith(out, "  pop  rcx", "  mul  rcx"),
        Operator::Slash => write_division(out, "  push rax"),
        Operator::Modulo => write_division(out, "  push rdx"),
        Operator::GreaterEqual => write_comparison(out, "  cmovge rcx, rdx"),
        Operator::GreaterThan => write_comparison(out, "  cmovg rcx, rdx"),
        Operator::LessThan => write_comparison(out, "  cmovl rcx, rdx"),
        Operator::LessEqual => write_comparison(out, "  cmovle rcx, rdx"),
        Operator::Equal => write_comparison(out, "  cmove rcx, rdx"),
        Operator::BangEqual => write_comparison(out, "  cmovne rcx, rdx"),
        Operator::Ampersand => write_arith(out, "  pop  rbx", "  and  rax, rbx"),
        Operator::Pipe => write_arith(out, "  pop  rbx", "  or   rax, rbx"),
        Operator::Caret => write_arith(out, "  pop  rbx", "  xor  rax, rbx"),
        Operator::ShiftLeft => write_arith(out, "  pop  rcx", "  shl  rax, cl"),
        Operator::ShiftRight => write_arith(out, "  pop  rcx", "  shr  rax, cl"),
        Operator::Unary { .. } | Operator::Read | Operator::Write => {},
    }
}

/// The register text of a load of `width` bytes.
fn read_register_of(width: usize) -> (register: &'static str)
    requires
        is_read_width(width),
    ensures
        register@ == read_register(width),
{
    if width == 1 {
        "bl"
    } else if width == 2 {
        "bx"
    } else if width == 3 {
        "ebx"
    } else {
        "rbx"
    }
}

/// The register text of a store of `width` bytes.
fn write_register_of(width: usize) -> (register: &'static str)
    requires
        is_write_width(width),
    ensures
        register@ == write_register(width),
{
    if width == 1 {
        "bl"
    } else if width == 2 {
        "bx"
    } else if width == 4 {
        "ebx"
    } else {
        "rbx"
    }
}

/// Appends `prefix` and `rest` as one line.
fn write_line2(out: &mut String, prefix: &str, rest: &str)
    ensures
        final(out)@ == old(out)@ + line(prefix@ + rest@),
{
    let ghost start = out@;
    write_str(out, prefix);
    write_line(out, rest);
    assert(out@ =~= start + line(prefix@ + rest@));
}

/// Appends `prefix`, `middle` and `suffix` as one line.
fn write_line3(out: &mut String, prefix: &str, middle: &str, suffix: &str)
    ensures
        final(out)@ == old(out)@ + line(prefix@ + middle@ + suffix@),
{
    let ghost start = out@;
    write_str(out, prefix);
    write_str(out, middle);
    write_line(out, suffix);
    assert(out@ =~= start + line(prefix@ + middle@ + suffix@));
}

/// Appends the loading of one value of `width` bytes.
fn write_load(out: &mut String, width: usize)
    requires
        is_read_width(width),
    ensures
        final(out)@ == old(out)@ + load_text(width),
{
    let ghost start = out@;
    let register = read_register_of(width);
    write_line(out, "  mov  rbx, 0");
    write_line3(out, "  mov  ", register, ", [rax]");
    write_line(out, "  push rbx");
    assert(out@ =~= start + load_text(width));
}

/// Appends the loading of `size` values of `width` bytes each.
fn write_read(out: &mut String, size: usize, width: usize)
    requires
        size > 0 ==> is_read_width(width),
    ensures
        final(out)@ == old(out)@ + read_text(size, width),
{
    if size == 0 {
        assert(out@ =~= old(out)@ + read_text(size, width));
        return;
    }
    let ghost start = out@;
    write_line(out, "  pop  rax");
    write_load(out, width);
    let ghost head = out@;
    let ghost step = line("  add  rax, "@ + decimal(width as nat)) + load_text(width);
    assert(head =~= head + repeat(step, 0));
    let mut i: usize = 1;
    while i < size
        invariant
            1 <= i <= size,
            is_read_width(width),
            step == line("  add  rax, "@ + decimal(width as nat)) + load_text(width),
            out@ == head + repeat(step, (i - 1) as nat),
        decreases size - i,
    {
        write_line_decimal(out, "  add  rax, ", width as u64);
        write_load(out, width);
        assert(out@ =~= head + repeat(step, i as nat));
        i = i + 1;
    }
    assert(out@ =~= start + read_text(size, width));
}

/// Appends the storing of `size` values of `width` bytes each.
fn write_write(out: &mut String, size: usize, width: usize)
    requires
        size > 0 ==> is_write_width(width) && (size - 1) * width <= usize::MAX,
    ensures
        final(out)@ == old(out)@ + write_text(size, width),
{
    if size == 0 {
        assert(out@ =~= old(out)@ + write_text(size, width));
        return;
    }
    let ghost start = out@;
    let register = write_register_of(width);
    write_line(out, "  pop  rax");
    write_line_decimal(out, "  add  rax, ", ((size - 1) * width) as u64);
    write_line(out, "  pop  rbx");
    write_line2(out, "  mov  [rax], ", register);
    let ghost head = out@;
    let ghost step = line("  sub  rax, "@ + decimal(width as nat)) + line("  pop  rbx"@) + line(
        "  mov  [rax], "@ + write_register(width),
    );
    assert(head =~= start + line("  pop  rax"@) + line(
        "  add  rax, "@ + decimal(((size - 1) * width) as nat),
    ) + line("  pop  rbx"@) + line("  mov  [rax], "@ + write_register(width)));
    assert(head =~= head + repeat(step, 0));
    let mut i: usize = 1;
    while i < size
        invariant
            1 <= i <= size,
            register@ == write_register(width),
            step == line("  sub  rax, "@ + decimal(width as nat)) + line("  pop  rbx"@) + line(
                "  mov  [rax], "@ + write_register(width),
            ),
            out@ == head + repeat(step, (i - 1) as nat),
        decreases size - i,
    {
        write_line_decimal(out, "  sub  rax, ", width as u64);
        write_line(out, "  pop  rbx");
        write_line2(out, "  mov  [rax], ", register);
        assert(out@ =~= head + repeat(step, i as nat));
        i = i + 1;
    }
    assert(out@ =~= start + write_text(size, width));
}

/// Appends the moving of `rax` onto the frame stack.
fn write_push_rax_to_frame(out: &mut String)
    ensures
        final(out)@ == old(out)@ + push_rax_to_frame_text(),
{
    let ghost start = out@;
    write_line(out, "  sub  qword [frame_end_ptr], 8");
    write_line(out, "  mov  rbx, [frame_end_ptr]");
    write_line(out, "  mov  [rbx], rax");
    assert(out@ =~= start + push_rax_to_frame_text());
}

/// Appends the code of `PushFromFrame`.
fn write_push_from_frame(out: &mut String, offset_from_end: usize, bytes: usize)
    requires
        offset_from_end * 8 <= usize::MAX,
    ensures
        final(out)@ == old(out)@ + instruction_code(
            Seq::empty(),
            SpecInstruction::PushFromFrame { offset_from_end, bytes },
        ),
{
    let ghost start = out@;
    write_line(out, "  mov rax, [frame_end_ptr]");
    write_line_decimal(out, "  add rax, ", (offset_from_end * 8) as u64);
    let ghost head = out@;
    let ghost step = line("  mov rbx, [rax]"@) + line("  push rbx"@) + line("  add rax, 8"@);
    assert(head =~= head + repeat(step, 0));
    let mut i: usize = 0;
    while i < bytes
        invariant
            i <= bytes,
            step == line("  mov rbx, [rax]"@) + line("  push rbx"@) + line("  add rax, 8"@),
            out@ == head + repeat(step, i as nat),
        decreases bytes - i,
    {
        write_line(out, "  mov rbx, [rax]");
        write_line(out, "  push rbx");
        write_line(out, "  add rax, 8");
        i = i + 1;
        assert(out@ =~= head + repeat(step, i as nat));
    }
    assert(out@ =~= start + instruction_code(
        Seq::empty(),
        SpecInstruction::PushFromFrame { offset_from_end, bytes },
    ));
}

/// Appends the code of `PushToFrame`.
fn write_push_to_frame(out: &mut String, quad_words: usize)
    ensures
        final(out)@ == old(out)@ + repeat(
            line("  pop  rax"@) + push_rax_to_frame_text(),
            quad_words as nat,
        ),
{
    let ghost start = out@;
    let ghost step = line("  pop  rax"@) + push_rax_to_frame_text();
    assert(start =~= start + repeat(step, 0));
    let mut i: usize = 0;
    while i < quad_words
        invariant
            i <= quad_words,
            step == line("  pop  rax"@) + push_rax_to_frame_text(),
            out@ == start + repeat(step, i as nat),
        decreases quad_words - i,
    {
        write_line(out, "  pop  rax");
        write_push_rax_to_frame(out);
        i = i + 1;
        assert(out@ =~= start + repeat(step, i as nat));
    }
}

/// Appends the code of `FramePtrToFrameReserve`.
fn write_frame_ptr_to_frame_reserve(out: &mut String, offset: usize, size: usize, width: usize)
    requires
        size > 0 ==> offset + 16 + (size - 1) * width <= usize::MAX,
    ensures
        final(out)@ == old(out)@ + instruction_code(
            Seq::empty(),
            SpecInstruction::FramePtrToFrameReserve { offset, size, width },
        ),
{
    let ghost start = out@;
    write_line(out, "  mov  rax, [frame_start_ptr]");
    if size > 0 {
        assert(0 <= (size - 1) * width) by (nonlinear_arith)
            requires
                size > 0,
        ;
        write_line_decimal(out, "  sub  rax, ", (offset + 16 + ((size - 1) * width)) as u64);
    }
    write_push_rax_to_frame(out);
    assert(out@ =~= start + instruction_code(
        Seq::empty(),
        SpecInstruction::FramePtrToFrameReserve { offset, size, width },
    ));
}

/// Appends the code of `InitLocalVarArr`.
fn write_init_local_var_arr(
    out: &mut String,
    offset_to_var: usize,
    offset_to_data: usize,
    data_size: usize,
    data_width: usize,
)
    requires
        offset_to_var + 16 <= usize::MAX,
        offset_to_data + 8 + data_size * data_width <= usize::MAX,
    ensures
        final(out)@ == old(out)@ + instruction_code(
            Seq::empty(),
            SpecInstruction::InitLocalVarArr { offset_to_var, offset_to_data, data_size, data_width },
        ),
{
    let ghost start = out@;
    assert(0 <= data_size * data_width) by (nonlinear_arith);
    write_line(out, "  mov rax, [frame_start_ptr]");
    write_line_decimal(out, "  sub rax, ", (offset_to_var + 16) as u64);
    write_line(out, "  mov rbx, [frame_start_ptr]");
    write_line_decimal(out, "  sub rbx, ", (offset_to_data + 8 + data_size * data_width) as u64);
    write_line(out, "  mov [rax], rbx");
    write_line(out, "  sub rax, 8");
    write_line_decimal(out, "  mov rbx, ", data_size as u64);
    write_line(out, "  mov [rax], rbx");
    assert(out@ =~= start + instruction_code(
        Seq::empty(),
        SpecInstruction::InitLocalVarArr { offset_to_var, offset_to_data, data_size, data_width },
    ));
}

/// The text of system-call register `i`.
fn syscall_register_of(i: usize) -> (register: &'static str)
    ensures
        register@ == syscall_register(i as nat),
{
    if i == 0 {
        "rax"
    } else if i == 1 {
        "rdi"
    } else if i == 2 {
        "rsi"
    } else if i == 3 {
        "rdx"
    } else if i == 4 {
        "r10"
    } else if i == 5 {
        "r8"
    } else {
        "r9"
    }
}

/// Appends the code of `Syscall(n)`.
fn write_syscall(out: &mut String, n: usize)
    requires
        n < usize::MAX,
    ensures
        final(out)@ == old(out)@ + instruction_code(Seq::empty(), SpecInstruction::Syscall(n)),
{
    let ghost start = out@;
    let count = if n + 1 <= 7 {
        n + 1
    } else {
        7
    };
    assert(start =~= start + syscall_pops(0));
    let mut i: usize = 0;
    while i < count
        invariant
            i <= count,
            out@ == start + syscall_pops(i as nat),
        decreases count - i,
    {
        write_line2(out, "  pop  ", syscall_register_of(i));
        i = i + 1;
        assert(out@ =~= start + syscall_pops(i as nat));
    }
    write_line(out, "  syscall");
    write_line(out, "  push rax");
    assert(out@ =~= start + instruction_code(Seq::empty(), SpecInstruction::Syscall(n)));
}

/// Appends the code of `Return`.
fn write_return(out: &mut String)
    ensures
        final(out)@ == old(out)@ + instruction_code(Seq::empty(), SpecInstruction::Return),
{
    let ghost start = out@;
    write_line(out, "  mov  rax, [frame_start_ptr]");
    write_line(out, "  push qword [rax-8]");
    write_line(out, "  mov  [frame_end_ptr], rax");
    write_line(out, "  add  qword [frame_end_ptr], 8");
    write_line(out, "  mov  rax, [rax]");
    write_line(out, "  mov  qword [frame_start_ptr], rax");
    write_line(out, "  ret");
    assert(out@ =~= start + instruction_code(Seq::empty(), SpecInstruction::Return));
}

/// Appends the label of jump destination `id`.
fn write_jump_label(out: &mut String, hash: &str, id: usize)
    ensures
        final(out)@ == old(out)@ + jump_label(hash@, id),
{
    let ghost start = out@;
    write_str(out, hash);
    write_str(out, "_jmp_dest_");
    write_decimal(out, id as u64);
    assert(out@ =~= start + jump_label(hash@, id));
}

/// Appends the code of `JumpFalse`.
fn write_jump_false(out: &mut String, hash: &str, dest_id: usize)
    ensures
        final(out)@ == old(out)@ + instruction_code(hash@, SpecInstruction::JumpFalse { dest_id }),
{
    let ghost start = out@;
    write_line(out, "  pop  rax");
    write_line(out, "  test rax, rax");
    write_str(out, "  jz ");
    write_jump_label(out, hash, dest_id);
    push_char(out, '\n');
    assert(out@ =~= start + instruction_code(hash@, SpecInstruction::JumpFalse { dest_id }));
}

/// Appends the bytes of a non-empty string as `{:#x}` numerals.
fn write_byte_list(out: &mut String, bytes: &[u8])
    ensures
        final(out)@ == old(out)@ + byte_list(bytes@),
{
    let ghost start = out@;
    assert(bytes@.take(0) =~= Seq::<u8>::empty());
    assert(start =~= start + byte_list(bytes@.take(0)));
    for i in 0..bytes.len()
        invariant
            out@ == start + byte_list(bytes@.take(i as int)),
    {
        if i > 0 {
            write_str(out, ", ");
        }
        write_hex_prefixed(out, bytes[i]);
        assert(bytes@.take(i + 1).drop_last() =~= bytes@.take(i as int));
        assert(out@ =~= start + byte_list(bytes@.take(i + 1)));
    }
    assert(bytes@.take(bytes@.len() as int) =~= bytes@);
}

/// Appends the definition of one initialised global.
fn write_init_entry(out: &mut String, id: &String, data: &InitData)
    ensures
        final(out)@ == old(out)@ + init_entry_text(id@, data@),
{
    let ghost start = out@;
    write_str(out, "  ");
    write_str(out, id.as_str());
    match data {
        InitData::String(s) => {
            write_str(out, ": db ");
            if !s.as_str().is_empty() {
                write_byte_list(out, s.as_str().as_bytes());
            } else {
                write_str(out, "0x00");
            }
        },
        InitData::Arr { size, pointer } => {
            write_str(out, ": dq ");
            write_decimal(out, *size as u64);
            write_str(out, ", ");
            write_str(out, pointer.as_str());
        },
    }
    push_char(out, '\n');
    assert(out@ =~= start + init_entry_text(id@, data@));
}

/// Appends the frame pointers and the frame stack that open the
/// uninitialised data segment.
fn write_uninit_header(out: &mut String)
    ensures
        final(out)@ == old(out)@ + uninit_data_text(Seq::empty()),
{
    let ghost start = out@;
    write_line(out, "segment readable writeable");
    write_line(out, "  frame_start_ptr: rq 1");
    write_line(out, "  frame_end_ptr: rq 1");
    write_line(out, "  frame_stack: rq 1048576");
    write_line(out, "  frame_stack_end:");
    assert(out@ =~= start + uninit_data_text(Seq::empty()));
}

/// Appends the reservation of one uninitialised global.
fn write_uninit_entry(out: &mut String, id: &String, data: &UninitData)
    ensures
        final(out)@ == old(out)@ + uninit_entry_text(id@, *data),
{
    let ghost start = out@;
    match data {
        UninitData::Region(size) => {
            write_str(out, "  ");
            write_str(out, id.as_str());
            write_line_decimal(out, ": rq ", *size as u64);
        },
    }
    assert(out@ =~= start + uninit_entry_text(id@, *data));
}

/// Appends the label text of one character.
fn write_escaped_char(out: &mut String, c: char)
    ensures
        final(out)@ == old(out)@ + escape_char(c),
{
    if c == '.' {
        out.append("_dot_");
    } else if c == '<' || c == '>' || c == ' ' || c == ':' {
        push_char(out, '_');
    } else if c == '+' {
        out.append("_plus_");
    } else if c == '*' {
        out.append("_star_");
    } else if c == '&' {
        out.append("_amp_");
    } else if c == '_' {
        out.append("__");
    } else if c == '[' {
        out.append("_lbrace_");
    } else if c == ']' {
        out.append("_rbrace_");
    } else {
        push_char(out, c);
    }
}

/// Appends the code of a call to the function named `func`.
fn write_call(out: &mut String, func: &str)
    ensures
        final(out)@ == old(out)@ + call_text(func@),
{
    let ghost start = out@;
    let hash = X86_64::encode_name(func);
    write_line(out, "  mov rax, [frame_start_ptr]");
    write_push_rax_to_frame(out);
    write_line(out, "  mov  rax, [frame_end_ptr]");
    write_line(out, "  mov  qword [frame_start_ptr], rax");
    write_str(out, "  call ");
    write_str(out, hash.as_str());
    write_str(out, " ; -- ");
    write_line(out, func);
    assert(out@ =~= start + call_text(func@));
}

impl CodeGen for X86_64 {
    open spec fn spec_encode_name(label: Seq<char>) -> Seq<char> {
        encoded_name(label)
    }

    open spec fn spec_can_emit(instruction: SpecInstruction) -> bool {
        can_emit(instruction)
    }

    open spec fn spec_instruction(hash: Seq<char>, instruction: SpecInstruction) -> Seq<char> {
        instruction_text(hash, instruction)
    }

    fn can_emit(instruction: &Instruction) -> (ok: bool) {
        match instruction {
            Instruction::PushFromFrame { offset_from_end, .. } => offset_from_end.checked_mul(
                8,
            ).is_some(),
            Instruction::PushPtrToFrame { offset_from_end, .. } => offset_from_end.checked_mul(
                8,
            ).is_some(),
            Instruction::FramePtrToFrameReserve { offset, size, width } => {
                if *size == 0 {
                    true
                } else {
                    match (*size - 1).checked_mul(*width) {
                        Some(stride) => match offset.checked_add(16) {
                            Some(base) => base.checked_add(stride).is_some(),
                            None => false,
                        },
                        None => false,
                    }
                }
            },
            Instruction::Operator { op, size } => match size {
                None => match op {
                    Operator::Unary { .. } | Operator::Read | Operator::Write => false,
                    _ => true,
                },
                Some((size, width)) => match op {
                    Operator::Read => *size == 0 || *width == 1 || *width == 2 || *width == 3
                        || *width == 8,
                    Operator::Write => *size == 0 || ((*width == 1 || *width == 2 || *width == 4
                        || *width == 8) && (*size - 1).checked_mul(*width).is_some()),
                    _ => false,
                },
            },
            Instruction::InitLocalVarArr { offset_to_var, offset_to_data, data_size, data_width } => {
                offset_to_var.checked_add(16).is_some() && match data_size.checked_mul(
                    *data_width,
                ) {
                    Some(data_bytes) => match offset_to_data.checked_add(8) {
                        Some(base) => base.checked_add(data_bytes).is_some(),
                        None => false,
                    },
                    None => false,
                }
            },
            Instruction::Syscall(n) => *n < usize::MAX,
            _ => true,
        }
    }

    fn instruction(out: &mut String, hash: &str, instruction: &Instruction) {
        let ghost start = out@;
        let debug = debug_text(instruction);
        write_str(out, "  ; -- ");
        write_line(out, debug.as_str());
        let ghost head = out@;
        assert(head =~= start + comment_text(instruction@));
        match instruction {
            Instruction::FrameReserve { bytes } => {
                write_line_decimal(out, "  sub qword [frame_end_ptr], ", *bytes as u64);
            },
            Instruction::PushFromFrame { offset_from_end, bytes } => {
                write_push_from_frame(out, *offset_from_end, *bytes);
            },
            Instruction::PushPtrToFrame { offset_from_end, .. } => {
                write_line(out, "  mov rax, [frame_end_ptr]");
                write_line_decimal(out, "  add rax, ", (*offset_from_end * 8) as u64);
                write_line(out, "  push rax");
            },
            Instruction::PushToFrame { quad_words } => {
                write_push_to_frame(out, *quad_words);
            },
            Instruction::FramePtrToFrameReserve { offset, size, width } => {
                write_frame_ptr_to_frame_reserve(out, *offset, *size, *width);
            },
            Instruction::StartBlock => {},
            Instruction::EndBlock { bytes_to_free } => {
                write_line_decimal(out, "  add qword [frame_end_ptr], ", *bytes_to_free as u64);
            },
            Instruction::Operator { op, size: None } => {
                write_binary_operator(out, op);
            },
            Instruction::Operator { op, size: Some((size, width)) } => {
                match op {
                    Operator::Read => write_read(out, *size, *width),
                    Operator::Write => write_write(out, *size, *width),
                    _ => {},
                }
            },
            Instruction::Jump { dest_id } => {
                write_str(out, "  jmp ");
                write_jump_label(out, hash, *dest_id);
                push_char(out, '\n');
            },
            Instruction::JumpFalse { dest_id } => {
                write_jump_false(out, hash, *dest_id);
            },
            Instruction::JumpDest { id } => {
                write_jump_label(out, hash, *id);
                write_line(out, ":");
            },
            Instruction::PushU64(n) => {
                write_line_decimal(out, "  push ", *n);
            },
            Instruction::PushGlobal { id } => {
                write_line2(out, "  push ", id.as_str());
            },
            Instruction::Call(func) => {
                write_call(out, func.as_str());
            },
            Instruction::InitLocalVarArr { offset_to_var, offset_to_data, data_size, data_width } => {
                write_init_local_var_arr(
                    out,
                    *offset_to_var,
                    *offset_to_data,
                    *data_size,
                    *data_width,
                );
            },
            Instruction::Syscall(n) => {
                write_syscall(out, *n);
            },
            Instruction::Return => {
                write_return(out);
            },
        }
        assert(out@ =~= start + instruction_text(hash@, instruction@));
    }

    fn encode_name(label: &str) -> (name: String) {
        let mut s = String::from_str("fn_");
        for c in it: label.chars()
            invariant
                it.seq() == label@,
                s@ == "fn_"@ + escape(label@.take(it.index() as int)),
        {
            write_escaped_char(&mut s, c);
            assert(label@.take(it.index() + 1).drop_last() =~= label@.take(it.index() as int));
            assert(s@ =~= "fn_"@ + escape(label@.take(it.index() + 1)));
        }
        assert(label@.take(label@.len() as int) =~= label@);
        s
    }
    open spec fn spec_open() -> Seq<char> {
        open_text()
    }

    fn open(out: &mut String) {
        let ghost start = out@;
        write_line(out, "format ELF64 executable");
        write_line(out, "segment readable executable");
        assert(out@ =~= start + open_text());
    }

    open spec fn spec_generate_function(label: Seq<char>, instructions: Seq<SpecInstruction>) -> Seq<
        char,
    > {
        function_text(label, instructions)
    }

    fn generate_function(out: &mut String, label: &str, instructions: &[Instruction]) {
        let ghost start = out@;
        let hash = X86_64::encode_name(label);
        write_line2(out, "; fn ", label);
        write_line2(out, hash.as_str(), ":");
        write_line(out, "  pop rax");
        write_push_rax_to_frame(out);
        let ghost head = out@;
        let ghost views = instruction_views(instructions@);
        assert(views.take(0) =~= Seq::<SpecInstruction>::empty());
        assert(head =~= head + instructions_text(hash@, views.take(0)));
        for i in 0..instructions.len()
            invariant
                views == instruction_views(instructions@),
                forall|j: int|
                    0 <= j < instructions@.len() ==> can_emit(#[trigger] instructions@[j]@),
                out@ == head + instructions_text(hash@, views.take(i as int)),
        {
            X86_64::instruction(out, hash.as_str(), &instructions[i]);
            assert(views.take(i + 1).drop_last() =~= views.take(i as int));
            assert(out@ =~= head + instructions_text(hash@, views.take(i + 1)));
        }
        assert(views.take(instructions@.len() as int) =~= views);
        assert(out@ =~= start + function_text(label@, views));
    }

    open spec fn spec_entry() -> Seq<char> {
        entry_text()
    }

    fn entry(out: &mut String) {
        let ghost start = out@;
        write_line(out, "entry _start");
        write_line(out, "_start: ");
        write_line(out, "  mov  qword [frame_start_ptr], frame_stack_end");
        write_line(out, "  mov  qword [frame_end_ptr], frame_stack_end");
        let call = Instruction::Call(String::from_str("main"));
        X86_64::instruction(out, "", &call);
        write_line(out, "exit:");
        write_line(out, "  mov  rax, 60");
        write_line(out, "  mov  rdi, 0");
        write_line(out, "  syscall");
        assert(out@ =~= start + entry_text());
    }

    open spec fn spec_init_data(listing: Seq<(Seq<char>, SpecInitData)>) -> Seq<char> {
        init_data_text(listing)
    }

    fn init_data(out: &mut String, data: &HashMap<String, InitData>) {
        let ghost start = out@;
        push_char(out, '\n');
        write_line(out, "segment readable writeable");
        let entries = map_entries(data);
        let ghost listing = entries@.map_values(
            |e: (&String, &InitData)| (e.0@, e.1@),
        );
        let ghost head = out@;
        assert(listing.take(0) =~= Seq::<(Seq<char>, SpecInitData)>::empty());
        assert(head =~= head + init_entries_text(listing.take(0)));
        for i in 0..entries.len()
            invariant
                listing == entries@.map_values(|e: (&String, &InitData)| (e.0@, e.1@)),
                out@ == head + init_entries_text(listing.take(i as int)),
        {
            let (id, value) = entries[i];
            write_init_entry(out, id, value);
            assert(listing.take(i + 1).drop_last() =~= listing.take(i as int));
            assert(out@ =~= head + init_entries_text(listing.take(i + 1)));
        }
        assert(listing.take(entries@.len() as int) =~= listing);
        assert(out@ =~= start + init_data_text(listing));
        assert(lists_map(data@, listing) && out@ == start + X86_64::spec_init_data(listing));
    }

    open spec fn spec_uninit_data(listing: Seq<(Seq<char>, UninitData)>) -> Seq<char> {
        uninit_data_text(listing)
    }

    fn uninit_data(out: &mut String, data: &HashMap<String, UninitData>) {
        let ghost start = out@;
        write_uninit_header(out);
        let entries = map_entries(data);
        let ghost listing = entries@.map_values(
            |e: (&String, &UninitData)| (e.0@, e.1@),
        );
        let ghost head = out@;
        assert(listing.take(0) =~= Seq::<(Seq<char>, UninitData)>::empty());
        assert(head =~= head + uninit_entries_text(listing.take(0)));
        assert(uninit_data_text(listing) =~= uninit_data_text(Seq::empty()) + uninit_entries_text(
            listing,
        ));
        for i in 0..entries.len()
            invariant
                listing == entries@.map_values(|e: (&String, &UninitData)| (e.0@, e.1@)),
                out@ == head + uninit_entries_text(listing.take(i as int)),
        {
            let (id, value) = entries[i];
            write_uninit_entry(out, id, value);
            assert(listing.take(i + 1).drop_last() =~= listing.take(i as int));
            assert(out@ =~= head + uninit_entries_text(listing.take(i + 1)));
        }
        assert(listing.take(entries@.len() as int) =~= listing);
        assert(out@ =~= start + uninit_data_text(listing));
        assert(lists_map(data@, listing) && out@ == start + X86_64::spec_uninit_data(listing));
    }
}

} // verus!
