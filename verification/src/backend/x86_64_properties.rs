//! Properties of the text that the x86-64 backend emits.

use vstd::prelude::*;

use super::instruction::{InitData, SpecInitData, SpecInstruction, UninitData};
use super::{functions_text, lists_every_map_entry, lists_map, CodeGen, X86_64};
use super::text::{
    decimal, hex_prefixed, lemma_decimal_digits_only, lemma_digits_injective, line, repeat,
};
use vstd::utf8::encode_utf8;
use super::x86_64_fasm::{
    byte_list, comment_text, encoded_name, escape, escape_char, function_text, init_entries_text,
    init_entry_text, instruction_code, instruction_text, instructions_text, jump_label, load_text,
    push_rax_to_frame_text, read_text, syscall_pops, syscall_register, uninit_data_text, uninit_entries_text, uninit_entry_text,
    write_register, write_text,
};

verus! {

/// The characters that an assembler label cannot hold as they are.
pub open spec fn is_reserved_char(c: char) -> bool {
    c == '.' || c == '<' || c == '>' || c == '+' || c == ' ' || c == '*' || c == '&' || c == ':'
        || c == '[' || c == ']'
}

/// Escaping a name piece by piece: the escape of two names written one after
/// the other is the two escapes written one after the other.
pub proof fn lemma_escape_concat(a: Seq<char>, b: Seq<char>)
    ensures
        escape(a + b) == escape(a) + escape(b),
    decreases b.len(),
{
    if b.len() == 0 {
        assert(a + b =~= a);
        assert(escape(a) + escape(b) =~= escape(a));
    } else {
        lemma_escape_concat(a, b.drop_last());
        assert((a + b).drop_last() =~= a + b.drop_last());
        assert((a + b).last() == b.last());
        assert(escape(a + b) =~= escape(a) + escape(b));
    }
}

/// The text that stands for one character holds no reserved character.
proof fn lemma_escape_char_not_reserved(c: char)
    ensures
        forall|j: int|
            0 <= j < escape_char(c).len() ==> !is_reserved_char(#[trigger] escape_char(c)[j]),
{
    reveal_strlit("_dot_");
    reveal_strlit("_plus_");
    reveal_strlit("_star_");
    reveal_strlit("_amp_");
    reveal_strlit("__");
    reveal_strlit("_lbrace_");
    reveal_strlit("_rbrace_");
}

/// The escape of a name holds no reserved character.
proof fn lemma_escape_not_reserved(s: Seq<char>)
    ensures
        forall|j: int| 0 <= j < escape(s).len() ==> !is_reserved_char(#[trigger] escape(s)[j]),
    decreases s.len(),
{
    if s.len() > 0 {
        lemma_escape_not_reserved(s.drop_last());
        lemma_escape_char_not_reserved(s.last());
        let e = escape(s.drop_last());
        let t = escape_char(s.last());
        assert forall|j: int| 0 <= j < escape(s).len() implies !is_reserved_char(
            #[trigger] escape(s)[j],
        ) by {
            if j < e.len() {
                assert(escape(s)[j] == e[j]);
            } else {
                assert(escape(s)[j] == t[j - e.len()]);
            }
        }
    }
}

/// Every function label is a valid assembler label whatever the function's
/// name: it holds none of the reserved characters `.`, `<`, `>`, `+`,
/// space, `*`, `&`, `:`, `[` and `]`.
pub proof fn lemma_encoded_name_has_no_reserved_char(label: Seq<char>)
    ensures
        forall|j: int|
            0 <= j < encoded_name(label).len() ==> !is_reserved_char(
                #[trigger] encoded_name(label)[j],
            ),
{
    reveal_strlit("fn_");
    lemma_escape_not_reserved(label);
    let e = escape(label);
    assert forall|j: int| 0 <= j < encoded_name(label).len() implies !is_reserved_char(
        #[trigger] encoded_name(label)[j],
    ) by {
        if j >= 3 {
            assert(encoded_name(label)[j] == e[j - 3]);
        }
    }
}

/// Characters that need no escape stand for themselves.
proof fn lemma_plain_escape_kept(label: Seq<char>)
    requires
        forall|j: int|
            0 <= j < label.len() ==> !is_reserved_char(#[trigger] label[j]) && label[j] != '_',
    ensures
        escape(label) == label,
    decreases label.len(),
{
    if label.len() > 0 {
        let init = label.drop_last();
        assert forall|j: int| 0 <= j < init.len() implies !is_reserved_char(#[trigger] init[j])
            && init[j] != '_' by {
            assert(init[j] == label[j]);
        }
        lemma_plain_escape_kept(init);
        let c = label[label.len() - 1];
        assert(!is_reserved_char(c) && c != '_');
        assert(escape_char(c) == seq![c]);
        assert(escape(label) =~= label);
    } else {
        assert(escape(label) =~= label);
    }
}

/// A name made only of characters that need no escape (neither reserved
/// nor `_`) keeps its spelling: its label is `fn_` followed by the name.
pub proof fn lemma_plain_name_kept(label: Seq<char>)
    requires
        forall|j: int|
            0 <= j < label.len() ==> !is_reserved_char(#[trigger] label[j]) && label[j] != '_',
    ensures
        encoded_name(label) == "fn_"@ + label,
{
    lemma_plain_escape_kept(label);
}

/// Translation is instruction by instruction: the text of two instruction
/// sequences written one after the other is their two texts in a row.
pub proof fn lemma_instructions_concat(
    hash: Seq<char>,
    a: Seq<SpecInstruction>,
    b: Seq<SpecInstruction>,
)
    ensures
        instructions_text(hash, a + b) == instructions_text(hash, a) + instructions_text(hash, b),
    decreases b.len(),
{
    if b.len() == 0 {
        assert(a + b =~= a);
        assert(instructions_text(hash, a) + instructions_text(hash, b) =~= instructions_text(
            hash,
            a,
        ));
    } else {
        lemma_instructions_concat(hash, a, b.drop_last());
        assert((a + b).drop_last() =~= a + b.drop_last());
        assert((a + b).last() == b.last());
        assert(instructions_text(hash, a + b) =~= instructions_text(hash, a) + instructions_text(
            hash,
            b,
        ));
    }
}

/// A jump reaches its destination: `Jump` and `JumpFalse` to `dest` name the
/// label that `JumpDest` with the same number defines, and destinations
/// with other numbers define other labels.
pub proof fn lemma_jump_reaches_destination(hash: Seq<char>, dest: usize, other: usize)
    ensures
        instruction_code(hash, SpecInstruction::Jump { dest_id: dest }) == line(
            "  jmp "@ + jump_label(hash, dest),
        ),
        exists|before: Seq<char>|
            instruction_code(hash, SpecInstruction::JumpFalse { dest_id: dest }) == before + line(
                "  jz "@ + jump_label(hash, dest),
            ),
        instruction_code(hash, SpecInstruction::JumpDest { id: dest }) == line(
            jump_label(hash, dest) + ":"@,
        ),
        other != dest ==> jump_label(hash, other) != jump_label(hash, dest),
{
    let before = line("  pop  rax"@) + line("  test rax, rax"@);
    assert(instruction_code(hash, SpecInstruction::JumpFalse { dest_id: dest }) == before + line(
        "  jz "@ + jump_label(hash, dest),
    ));
    if jump_label(hash, other) == jump_label(hash, dest) {
        let p = hash + "_jmp_dest_"@;
        assert(jump_label(hash, other) == p + decimal(other as nat));
        assert(decimal(other as nat) =~= jump_label(hash, other).subrange(
            p.len() as int,
            jump_label(hash, other).len() as int,
        ));
        assert(decimal(dest as nat) =~= jump_label(hash, dest).subrange(
            p.len() as int,
            jump_label(hash, dest).len() as int,
        ));
        lemma_digits_injective(other as nat, dest as nat, 10);
    }
}

/// A call reaches the function it names: the call of `f` targets the label
/// on the second line of the text of `f`'s definition.
pub proof fn lemma_call_reaches_definition(
    hash: Seq<char>,
    f: Seq<char>,
    instructions: Seq<SpecInstruction>,
)
    ensures
        exists|rest: Seq<char>|
            function_text(f, instructions) == line("; fn "@ + f) + line(encoded_name(f) + ":"@)
                + rest,
        exists|before: Seq<char>|
            instruction_code(hash, SpecInstruction::Call(f)) == before + line(
                "  call "@ + encoded_name(f) + " ; -- "@ + f,
            ),
{
    let code = instruction_code(hash, SpecInstruction::Call(f));
    let call = line("  call "@ + encoded_name(f) + " ; -- "@ + f);
    let before = code.subrange(0, code.len() - call.len());
    assert(code =~= before + call);
    let head = line("; fn "@ + f) + line(encoded_name(f) + ":"@);
    let text = function_text(f, instructions);
    let rest = text.subrange(head.len() as int, text.len() as int);
    assert(text =~= head + rest);
}

/// `text` is `middle` with `before` in front of it and `after` behind it.
pub open spec fn is_split(text: Seq<char>, before: Seq<char>, middle: Seq<char>, after: Seq<char>) -> bool {
    text == before + middle + after
}

/// A text made of whole lines: empty, or ending with a newline.
pub open spec fn is_whole_lines(s: Seq<char>) -> bool {
    s.len() == 0 || s.last() == '\n'
}

proof fn lemma_whole_lines_concat(a: Seq<char>, b: Seq<char>)
    requires
        is_whole_lines(a),
        is_whole_lines(b),
    ensures
        is_whole_lines(a + b),
{
    if b.len() > 0 {
        assert((a + b).last() == b.last());
    } else {
        assert(a + b =~= a);
    }
}

proof fn lemma_repeat_whole_lines(block: Seq<char>, n: nat)
    requires
        is_whole_lines(block),
    ensures
        is_whole_lines(repeat(block, n)),
    decreases n,
{
    if n > 0 {
        lemma_repeat_whole_lines(block, (n - 1) as nat);
        lemma_whole_lines_concat(repeat(block, (n - 1) as nat), block);
    }
}

/// Every instruction's text is a comment line followed by whole lines of
/// code, so a listing never splits a line between two instructions.
pub proof fn lemma_instruction_text_whole_lines(hash: Seq<char>, instruction: SpecInstruction)
    ensures
        instruction_text(hash, instruction).len() > 0,
        is_whole_lines(instruction_text(hash, instruction)),
{
    let code = instruction_code(hash, instruction);
    assert(is_whole_lines(code)) by {
        match instruction {
            SpecInstruction::PushFromFrame { offset_from_end, bytes } => {
                let block = line("  mov rbx, [rax]"@) + line("  push rbx"@) + line("  add rax, 8"@);
                lemma_repeat_whole_lines(block, bytes as nat);
                lemma_whole_lines_concat(
                    line("  mov rax, [frame_end_ptr]"@) + line(
                        "  add rax, "@ + decimal((offset_from_end * 8) as nat),
                    ),
                    repeat(block, bytes as nat),
                );
            },
            SpecInstruction::PushToFrame { quad_words } => {
                let block = line("  pop  rax"@) + line("  sub  qword [frame_end_ptr], 8"@) + line(
                    "  mov  rbx, [frame_end_ptr]"@,
                ) + line("  mov  [rbx], rax"@);
                lemma_repeat_whole_lines(block, quad_words as nat);
            },
            SpecInstruction::Operator { op, size } => {
                match size {
                    Some((size, width)) => {
                        if size > 0 {
                            lemma_repeat_whole_lines(
                                line("  add  rax, "@ + decimal(width as nat)) + line(
                                    "  mov  rbx, 0"@,
                                ) + line("  mov  "@ + super::x86_64_fasm::read_register(width) + ", [rax]"@)
                                    + line("  push rbx"@),
                                (size - 1) as nat,
                            );
                            lemma_repeat_whole_lines(
                                line("  sub  rax, "@ + decimal(width as nat)) + line("  pop  rbx"@)
                                    + line("  mov  [rax], "@ + super::x86_64_fasm::write_register(width)),
                                (size - 1) as nat,
                            );
                        }
                    },
                    None => {},
                }
            },
            _ => {},
        }
    }
    lemma_whole_lines_concat(line("  ; -- "@ + super::instruction::instruction_debug_text(instruction)), code);
}

/// The text of a sequence of instructions is made of whole lines.
proof fn lemma_instructions_text_whole_lines(hash: Seq<char>, instructions: Seq<SpecInstruction>)
    ensures
        is_whole_lines(instructions_text(hash, instructions)),
    decreases instructions.len(),
{
    if instructions.len() > 0 {
        lemma_instructions_text_whole_lines(hash, instructions.drop_last());
        lemma_instruction_text_whole_lines(hash, instructions.last());
        lemma_whole_lines_concat(
            instructions_text(hash, instructions.drop_last()),
            instruction_text(hash, instructions.last()),
        );
    }
}

/// The text of a function is made of whole lines, however many instructions
/// it has.
pub proof fn lemma_function_text_whole_lines(label: Seq<char>, instructions: Seq<SpecInstruction>)
    ensures
        function_text(label, instructions).len() > 0,
        is_whole_lines(function_text(label, instructions)),
{
    let hash = encoded_name(label);
    let head = line("; fn "@ + label) + line(hash + ":"@) + line("  pop rax"@) + line(
        "  sub  qword [frame_end_ptr], 8"@,
    ) + line("  mov  rbx, [frame_end_ptr]"@) + line("  mov  [rbx], rax"@);
    lemma_instructions_text_whole_lines(hash, instructions);
    lemma_whole_lines_concat(head, instructions_text(hash, instructions));
    assert(function_text(label, instructions) =~= head + instructions_text(hash, instructions));
}

proof fn lemma_uninit_entries_whole_lines(listing: Seq<(Seq<char>, UninitData)>)
    ensures
        is_whole_lines(uninit_entries_text(listing)),
    decreases listing.len(),
{
    if listing.len() > 0 {
        lemma_uninit_entries_whole_lines(listing.drop_last());
        lemma_whole_lines_concat(
            uninit_entries_text(listing.drop_last()),
            uninit_entry_text(listing.last().0, listing.last().1),
        );
    }
}

/// The whole assembler source that `compile` produces for this backend is
/// made of whole lines: it ends with a newline.
pub proof fn lemma_program_whole_lines(
    functions: Seq<(Seq<char>, Seq<SpecInstruction>)>,
    init_listing: Seq<(Seq<char>, SpecInitData)>,
    uninit_listing: Seq<(Seq<char>, UninitData)>,
)
    ensures
        ({
            let text = X86_64::spec_open() + functions_text::<X86_64>(functions)
                + X86_64::spec_entry() + X86_64::spec_init_data(init_listing)
                + X86_64::spec_uninit_data(uninit_listing);
            text.len() > 0 && is_whole_lines(text)
        }),
{
    let head = line("segment readable writeable"@) + line("  frame_start_ptr: rq 1"@) + line(
        "  frame_end_ptr: rq 1"@,
    ) + line("  frame_stack: rq 1048576"@) + line("  frame_stack_end:"@);
    lemma_uninit_entries_whole_lines(uninit_listing);
    lemma_whole_lines_concat(head, uninit_entries_text(uninit_listing));
    let prefix = X86_64::spec_open() + functions_text::<X86_64>(functions) + X86_64::spec_entry()
        + X86_64::spec_init_data(init_listing);
    lemma_whole_lines_concat(prefix, uninit_data_text(uninit_listing));
}

/// Instructions appended to a function are translated under the function's
/// own label: adding one instruction at the end of a function adds exactly
/// that instruction's text, with the encoded name of the function as the
/// base of its jump labels.
pub proof fn lemma_function_appends_instruction(
    label: Seq<char>,
    instructions: Seq<SpecInstruction>,
    instruction: SpecInstruction,
)
    ensures
        X86_64::spec_generate_function(label, instructions.push(instruction))
            == X86_64::spec_generate_function(label, instructions) + X86_64::spec_instruction(
            X86_64::spec_encode_name(label),
            instruction,
        ),
{
    let hash = encoded_name(label);
    let more = instructions.push(instruction);
    assert(more.drop_last() =~= instructions);
    assert(more.last() == instruction);
    assert(instructions_text(hash, more) == instructions_text(hash, instructions) + instruction_text(
        hash,
        instruction,
    ));
    assert(function_text(label, more) =~= function_text(label, instructions) + instruction_text(
        hash,
        instruction,
    ));
}

/// The jump labels of a function are valid assembler labels: they begin
/// with the function's encoded name, hold no reserved character, and the
/// destination that a function defines is the one its jumps name.
pub proof fn lemma_function_jump_labels_valid(
    label: Seq<char>,
    instructions: Seq<SpecInstruction>,
    id: usize,
)
    ensures
        ({
            let name = X86_64::spec_encode_name(label);
            let target = jump_label(name, id);
            &&& target.subrange(0, name.len() as int) == name
            &&& forall|j: int| 0 <= j < target.len() ==> !is_reserved_char(#[trigger] target[j])
            &&& exists|before: Seq<char>|
                X86_64::spec_generate_function(
                    label,
                    instructions.push(SpecInstruction::JumpDest { id }),
                ) == before + line(target + ":"@)
            &&& exists|before: Seq<char>|
                X86_64::spec_generate_function(
                    label,
                    instructions.push(SpecInstruction::JumpFalse { dest_id: id }),
                ) == before + line("  jz "@ + target)
            &&& exists|before: Seq<char>|
                X86_64::spec_generate_function(
                    label,
                    instructions.push(SpecInstruction::Jump { dest_id: id }),
                ) == before + line("  jmp "@ + target)
        }),
{
    let name = encoded_name(label);
    let target = jump_label(name, id);
    let middle = "_jmp_dest_"@;
    let number = decimal(id as nat);
    reveal_strlit("_jmp_dest_");
    lemma_encoded_name_has_no_reserved_char(label);
    lemma_decimal_digits_only(id as nat);
    assert(target == name + middle + number);
    assert(target.subrange(0, name.len() as int) =~= name);
    assert forall|j: int| 0 <= j < target.len() implies !is_reserved_char(#[trigger] target[j]) by {
        if j < name.len() {
            assert(target[j] == name[j]);
        } else if j < name.len() + middle.len() {
            assert(target[j] == middle[j - name.len()]);
        } else {
            assert(target[j] == number[j - name.len() - middle.len()]);
        }
    }
    let dest = SpecInstruction::JumpDest { id };
    let jz = SpecInstruction::JumpFalse { dest_id: id };
    let jmp = SpecInstruction::Jump { dest_id: id };
    lemma_function_appends_instruction(label, instructions, dest);
    lemma_function_appends_instruction(label, instructions, jz);
    lemma_function_appends_instruction(label, instructions, jmp);
    let dest_before = function_text(label, instructions) + comment_text(dest);
    assert(function_text(label, instructions.push(dest)) =~= dest_before + line(target + ":"@));
    let jz_before = function_text(label, instructions) + comment_text(jz) + line("  pop  rax"@)
        + line("  test rax, rax"@);
    assert(function_text(label, instructions.push(jz)) =~= jz_before + line("  jz "@ + target));
    let jmp_before = function_text(label, instructions) + comment_text(jmp);
    assert(function_text(label, instructions.push(jmp)) =~= jmp_before + line("  jmp "@ + target));
}

/// Loading values walks up through memory by the element width: loading one
/// value pops its address and loads from it, and each further value is
/// loaded `width` bytes above the previous one.
pub proof fn lemma_read_steps_by_width(size: usize, width: usize)
    requires
        1 <= size < usize::MAX,
    ensures
        read_text(1, width) == line("  pop  rax"@) + load_text(width),
        read_text((size + 1) as usize, width) == read_text(size, width) + line(
            "  add  rax, "@ + decimal(width as nat),
        ) + load_text(width),
        read_text(size, width) == line("  pop  rax"@) + load_text(width) + repeat(
            line("  add  rax, "@ + decimal(width as nat)) + load_text(width),
            (size - 1) as nat,
        ),
{
    let step = line("  add  rax, "@ + decimal(width as nat)) + load_text(width);
    assert(repeat(step, 0) =~= Seq::<char>::empty());
    assert(read_text(1, width) =~= line("  pop  rax"@) + load_text(width));
    assert(repeat(step, size as nat) == repeat(step, (size - 1) as nat) + step);
    assert(read_text((size + 1) as usize, width) =~= read_text(size, width) + step);
}

/// Storing values walks down through memory by the element width: the first
/// store goes `(size - 1) * width` bytes above the popped address, and each
/// further one `width` bytes below the previous, so the last store lands on
/// the popped address itself.
pub proof fn lemma_write_steps_by_width(size: usize, width: usize)
    requires
        1 <= size,
    ensures
        write_text(size, width) == line("  pop  rax"@) + line(
            "  add  rax, "@ + decimal(((size - 1) * width) as nat),
        ) + line("  pop  rbx"@) + line("  mov  [rax], "@ + write_register(width)) + repeat(
            line("  sub  rax, "@ + decimal(width as nat)) + line("  pop  rbx"@) + line(
                "  mov  [rax], "@ + write_register(width),
            ),
            (size - 1) as nat,
        ),
{
}

/// A block frees exactly the frame space that was reserved for it: the same
/// number of bytes is subtracted from and added back to `frame_end_ptr`.
pub proof fn lemma_block_frees_what_it_reserves(hash: Seq<char>, bytes: usize)
    ensures
        instruction_code(hash, SpecInstruction::FrameReserve { bytes }) == line(
            "  sub qword [frame_end_ptr], "@ + decimal(bytes as nat),
        ),
        instruction_code(hash, SpecInstruction::EndBlock { bytes_to_free: bytes }) == line(
            "  add qword [frame_end_ptr], "@ + decimal(bytes as nat),
        ),
        instruction_code(hash, SpecInstruction::StartBlock) == Seq::<char>::empty(),
{
}

/// Moving one more quad word between the stack and the frame adds exactly
/// one more copy of the per-word code.
pub proof fn lemma_frame_transfers_per_quad_word(hash: Seq<char>, offset_from_end: usize, n: usize)
    requires
        n < usize::MAX,
    ensures
        instruction_code(
            hash,
            SpecInstruction::PushFromFrame { offset_from_end, bytes: (n + 1) as usize },
        ) == instruction_code(hash, SpecInstruction::PushFromFrame { offset_from_end, bytes: n })
            + line("  mov rbx, [rax]"@) + line("  push rbx"@) + line("  add rax, 8"@),
        instruction_code(hash, SpecInstruction::PushToFrame { quad_words: (n + 1) as usize })
            == instruction_code(hash, SpecInstruction::PushToFrame { quad_words: n }) + line(
            "  pop  rax"@,
        ) + line("  sub  qword [frame_end_ptr], 8"@) + line("  mov  rbx, [frame_end_ptr]"@) + line(
            "  mov  [rbx], rax"@,
        ),
{
    let from = line("  mov rbx, [rax]"@) + line("  push rbx"@) + line("  add rax, 8"@);
    let to = line("  pop  rax"@) + line("  sub  qword [frame_end_ptr], 8"@) + line(
        "  mov  rbx, [frame_end_ptr]"@,
    ) + line("  mov  [rbx], rax"@);
    assert(repeat(from, (n + 1) as nat) == repeat(from, n as nat) + from);
    assert(repeat(to, (n + 1) as nat) == repeat(to, n as nat) + to);
    assert(instruction_code(
        hash,
        SpecInstruction::PushFromFrame { offset_from_end, bytes: (n + 1) as usize },
    ) =~= instruction_code(hash, SpecInstruction::PushFromFrame { offset_from_end, bytes: n })
        + from);
    assert(to =~= line("  pop  rax"@) + push_rax_to_frame_text());
    assert(instruction_code(hash, SpecInstruction::PushToFrame { quad_words: (n + 1) as usize })
        =~= instruction_code(hash, SpecInstruction::PushToFrame { quad_words: n }) + to);
}

/// A local array's header records its element count and points at its data:
/// the pointer is `offset_to_data + 8 + data_size * data_width` bytes below
/// the frame start, and the stored length is `data_size`, whatever the
/// width of an element.
pub proof fn lemma_local_array_header(
    hash: Seq<char>,
    offset_to_var: usize,
    offset_to_data: usize,
    data_size: usize,
    data_width: usize,
)
    ensures
        ({
            let code = instruction_code(
                hash,
                SpecInstruction::InitLocalVarArr {
                    offset_to_var,
                    offset_to_data,
                    data_size,
                    data_width,
                },
            );
            let pointer_line = line(
                "  sub rbx, "@ + decimal((offset_to_data + 8 + data_size * data_width) as nat),
            );
            let variable_line = line("  sub rax, "@ + decimal((offset_to_var + 16) as nat));
            &&& exists|before: Seq<char>|
                code == before + line("  mov rbx, "@ + decimal(data_size as nat)) + line(
                    "  mov [rax], rbx"@,
                )
            &&& exists|before: Seq<char>, after: Seq<char>|
                #![trigger is_split(code, before, pointer_line, after)]
                is_split(code, before, pointer_line, after)
            &&& exists|before: Seq<char>, after: Seq<char>|
                #![trigger is_split(code, before, variable_line, after)]
                is_split(code, before, variable_line, after)
        }),
{
    let code = instruction_code(
        hash,
        SpecInstruction::InitLocalVarArr { offset_to_var, offset_to_data, data_size, data_width },
    );
    let l1 = line("  mov rax, [frame_start_ptr]"@);
    let l2 = line("  sub rax, "@ + decimal((offset_to_var + 16) as nat));
    let l3 = line("  mov rbx, [frame_start_ptr]"@);
    let l4 = line("  sub rbx, "@ + decimal((offset_to_data + 8 + data_size * data_width) as nat));
    let l5 = line("  mov [rax], rbx"@);
    let l6 = line("  sub rax, 8"@);
    let l7 = line("  mov rbx, "@ + decimal(data_size as nat));
    assert(code == l1 + l2 + l3 + l4 + l5 + l6 + l7 + l5);
    assert(code =~= (l1 + l2 + l3 + l4 + l5 + l6) + l7 + l5);
    assert(code =~= (l1 + l2 + l3) + l4 + (l5 + l6 + l7 + l5));
    assert(is_split(code, l1 + l2 + l3, l4, l5 + l6 + l7 + l5));
    assert(code =~= l1 + l2 + (l3 + l4 + l5 + l6 + l7 + l5));
    assert(is_split(code, l1, l2, l3 + l4 + l5 + l6 + l7 + l5));
}

/// Listing globals one after another gives their definitions in a row: no
/// global is dropped, repeated or moved.
pub proof fn lemma_init_entries_concat(
    a: Seq<(Seq<char>, SpecInitData)>,
    b: Seq<(Seq<char>, SpecInitData)>,
)
    ensures
        init_entries_text(a + b) == init_entries_text(a) + init_entries_text(b),
    decreases b.len(),
{
    if b.len() == 0 {
        assert(a + b =~= a);
        assert(init_entries_text(a) + init_entries_text(b) =~= init_entries_text(a));
    } else {
        lemma_init_entries_concat(a, b.drop_last());
        assert((a + b).drop_last() =~= a + b.drop_last());
        assert((a + b).last() == b.last());
        assert(init_entries_text(a + b) =~= init_entries_text(a) + init_entries_text(b));
    }
}

/// Listing reserved globals one after another gives their reservations in a
/// row: no global is dropped, repeated or moved.
pub proof fn lemma_uninit_entries_concat(
    a: Seq<(Seq<char>, UninitData)>,
    b: Seq<(Seq<char>, UninitData)>,
)
    ensures
        uninit_entries_text(a + b) == uninit_entries_text(a) + uninit_entries_text(b),
    decreases b.len(),
{
    if b.len() == 0 {
        assert(a + b =~= a);
        assert(uninit_entries_text(a) + uninit_entries_text(b) =~= uninit_entries_text(a));
    } else {
        lemma_uninit_entries_concat(a, b.drop_last());
        assert((a + b).drop_last() =~= a + b.drop_last());
        assert((a + b).last() == b.last());
        assert(uninit_entries_text(a + b) =~= uninit_entries_text(a) + uninit_entries_text(b));
    }
}

proof fn lemma_uninit_entries_split(listing: Seq<(Seq<char>, UninitData)>, i: int)
    requires
        0 <= i < listing.len(),
    ensures
        uninit_entries_text(listing) == uninit_entries_text(listing.take(i)) + uninit_entry_text(
            listing[i].0,
            listing[i].1,
        ) + uninit_entries_text(listing.skip(i + 1)),
{
    let single = seq![listing[i]];
    assert(listing =~= listing.take(i) + single + listing.skip(i + 1));
    lemma_uninit_entries_concat(listing.take(i) + single, listing.skip(i + 1));
    lemma_uninit_entries_concat(listing.take(i), single);
    assert(single.drop_last() =~= Seq::<(Seq<char>, UninitData)>::empty());
    assert(uninit_entries_text(single.drop_last()) =~= Seq::<char>::empty());
    assert(single.last() == listing[i]);
    assert(uninit_entries_text(single) =~= uninit_entry_text(listing[i].0, listing[i].1));
}

proof fn lemma_init_entries_split(listing: Seq<(Seq<char>, SpecInitData)>, i: int)
    requires
        0 <= i < listing.len(),
    ensures
        init_entries_text(listing) == init_entries_text(listing.take(i)) + init_entry_text(
            listing[i].0,
            listing[i].1,
        ) + init_entries_text(listing.skip(i + 1)),
{
    let single = seq![listing[i]];
    assert(listing =~= listing.take(i) + single + listing.skip(i + 1));
    lemma_init_entries_concat(listing.take(i) + single, listing.skip(i + 1));
    lemma_init_entries_concat(listing.take(i), single);
    assert(single.drop_last() =~= Seq::<(Seq<char>, SpecInitData)>::empty());
    assert(init_entries_text(single.drop_last()) =~= Seq::<char>::empty());
    assert(single.last() == listing[i]);
    assert(init_entries_text(single) =~= init_entry_text(listing[i].0, listing[i].1));
}

/// The position at which a listing names a key of its map.
proof fn lemma_listed_position<V: View>(
    map: Map<String, V>,
    listing: Seq<(Seq<char>, V::V)>,
    key: String,
) -> (i: int)
    requires
        lists_map(map, listing),
        map.contains_key(key),
    ensures
        0 <= i < listing.len(),
        listing[i] == (key@, map[key]@),
{
    reveal(lists_every_map_entry);
    let i = choose|i: int|
        0 <= i < listing.len() && listing[i].0 == key@ && #[trigger] listing[i].1 == map[key]@;
    i
}

/// Every global of the map is reserved in the uninitialised data segment, on
/// a line of its own with its name and its size in quad words.
pub proof fn lemma_every_uninit_global_reserved(
    map: Map<String, UninitData>,
    listing: Seq<(Seq<char>, UninitData)>,
    key: String,
)
    requires
        lists_map(map, listing),
        map.contains_key(key),
    ensures
        exists|before: Seq<char>, after: Seq<char>|
            is_split(
                X86_64::spec_uninit_data(listing),
                before,
                line("  "@ + key@ + ": rq "@ + decimal((map[key]->0) as nat)),
                after,
            ),
{
    let i = lemma_listed_position(map, listing, key);
    lemma_uninit_entries_split(listing, i);
    let entry = line("  "@ + key@ + ": rq "@ + decimal((map[key]->0) as nat));
    assert(uninit_entry_text(listing[i].0, listing[i].1) == entry);
    let before = uninit_data_text(Seq::empty()) + uninit_entries_text(listing.take(i));
    let after = uninit_entries_text(listing.skip(i + 1));
    assert(uninit_data_text(Seq::empty()) + uninit_entries_text(Seq::empty()) =~= uninit_data_text(
        Seq::empty(),
    ));
    assert(X86_64::spec_uninit_data(listing) =~= before + entry + after);
    assert(is_split(X86_64::spec_uninit_data(listing), before, entry, after));
}

/// Every global of the map is defined in the initialised data segment, with
/// the definition of its name and value.
pub proof fn lemma_every_init_global_defined(
    map: Map<String, InitData>,
    listing: Seq<(Seq<char>, SpecInitData)>,
    key: String,
)
    requires
        lists_map(map, listing),
        map.contains_key(key),
    ensures
        exists|before: Seq<char>, after: Seq<char>|
            is_split(X86_64::spec_init_data(listing), before, init_entry_text(key@, map[key]@), after),
{
    let i = lemma_listed_position(map, listing, key);
    lemma_init_entries_split(listing, i);
    let entry = init_entry_text(key@, map[key]@);
    let before = line(Seq::empty()) + line("segment readable writeable"@) + init_entries_text(
        listing.take(i),
    );
    let after = init_entries_text(listing.skip(i + 1));
    assert(X86_64::spec_init_data(listing) =~= before + entry + after);
    assert(is_split(X86_64::spec_init_data(listing), before, entry, after));
}

/// The bytes of a string are listed one by one, in order, separated by
/// `, `: appending a byte to a non-empty byte string appends its numeral.
pub proof fn lemma_byte_list_appends(bytes: Seq<u8>, b: u8)
    ensures
        byte_list(seq![b]) == hex_prefixed(b as nat),
        bytes.len() > 0 ==> byte_list(bytes.push(b)) == byte_list(bytes) + ", "@ + hex_prefixed(
            b as nat,
        ),
{
    assert(seq![b].len() == 1);
    let more = bytes.push(b);
    assert(more.drop_last() =~= bytes);
    assert(more.last() == b);
}

/// A string global holds the UTF-8 encoding of its text, byte by byte in
/// the same order; an empty string holds a single zero byte.
pub proof fn lemma_string_global_bytes(id: Seq<char>, text: Seq<char>)
    ensures
        text.len() == 0 ==> init_entry_text(id, SpecInitData::String(text)) == line(
            "  "@ + id + ": db "@ + "0x00"@,
        ),
        text.len() > 0 ==> init_entry_text(id, SpecInitData::String(text)) == line(
            "  "@ + id + ": db "@ + byte_list(encode_utf8(text)),
        ),
{
}

/// A system call pops its number into `rax` and its arguments into `rdi`,
/// `rsi`, `rdx`, `r10`, `r8` and `r9`, in that order, then pushes the result.
pub proof fn lemma_syscall_registers(hash: Seq<char>, n: usize)
    requires
        n < 7,
    ensures
        ({
            let registers = seq!["rax"@, "rdi"@, "rsi"@, "rdx"@, "r10"@, "r8"@, "r9"@];
            &&& syscall_pops(0) == Seq::<char>::empty()
            &&& forall|k: nat|
                k < 7 ==> #[trigger] syscall_pops(k + 1) == syscall_pops(k) + line(
                    "  pop  "@ + registers[k as int],
                )
            &&& instruction_code(hash, SpecInstruction::Syscall(n)) == syscall_pops((n + 1) as nat)
                + line("  syscall"@) + line("  push rax"@)
        }),
{
    let registers = seq!["rax"@, "rdi"@, "rsi"@, "rdx"@, "r10"@, "r8"@, "r9"@];
    assert forall|k: nat| k < 7 implies #[trigger] syscall_pops(k + 1) == syscall_pops(k) + line(
        "  pop  "@ + registers[k as int],
    ) by {
        assert(syscall_register(k) == registers[k as int]);
    }
}

/// Frame offsets count quad words: pushing from, or the address of, the
/// frame slot `offset_from_end` quad words above the frame's end adds
/// `8 * offset_from_end` bytes to `frame_end_ptr`.
pub proof fn lemma_frame_offsets_in_quad_words(
    hash: Seq<char>,
    offset_from_end: usize,
    bytes: usize,
)
    ensures
        instruction_code(hash, SpecInstruction::PushPtrToFrame { offset_from_end, bytes }) == line(
            "  mov rax, [frame_end_ptr]"@,
        ) + line("  add rax, "@ + decimal((8 * offset_from_end) as nat)) + line("  push rax"@),
        instruction_code(hash, SpecInstruction::PushFromFrame { offset_from_end, bytes }) == line(
            "  mov rax, [frame_end_ptr]"@,
        ) + line("  add rax, "@ + decimal((8 * offset_from_end) as nat)) + repeat(
            line("  mov rbx, [rax]"@) + line("  push rbx"@) + line("  add rax, 8"@),
            bytes as nat,
        ),
{
    assert(8 * offset_from_end == offset_from_end * 8);
}

/// A pointer into the frame for a value of `size` elements of `width` bytes
/// points `offset + 16 + (size - 1) * width` bytes below the frame start;
/// for an empty value it is the frame start itself.
pub proof fn lemma_frame_pointer_offset(
    hash: Seq<char>,
    offset: usize,
    size: usize,
    width: usize,
)
    ensures
        size > 0 ==> instruction_code(
            hash,
            SpecInstruction::FramePtrToFrameReserve { offset, size, width },
        ) == line("  mov  rax, [frame_start_ptr]"@) + line(
            "  sub  rax, "@ + decimal((offset + 16 + (size - 1) * width) as nat),
        ) + push_rax_to_frame_text(),
        size == 0 ==> instruction_code(
            hash,
            SpecInstruction::FramePtrToFrameReserve { offset, size, width },
        ) == line("  mov  rax, [frame_start_ptr]"@) + push_rax_to_frame_text(),
{
    if size == 0 {
        assert(line("  mov  rax, [frame_start_ptr]"@) + Seq::<char>::empty()
            =~= line("  mov  rax, [frame_start_ptr]"@));
    }
}

/// The entry point calls `main` through the label that `generate_function`
/// gives a function named `main`, after setting up an empty frame stack, and
/// exits with status 0 when it returns.
pub proof fn lemma_entry_calls_main()
    ensures
        exists|between: Seq<char>|
            X86_64::spec_entry() == line("entry _start"@) + line("_start: "@) + line(
                "  mov  qword [frame_start_ptr], frame_stack_end"@,
            ) + line("  mov  qword [frame_end_ptr], frame_stack_end"@) + between + line(
                "  call "@ + X86_64::spec_encode_name("main"@) + " ; -- "@ + "main"@,
            ) + line("exit:"@) + line("  mov  rax, 60"@) + line("  mov  rdi, 0"@) + line(
                "  syscall"@,
            ),
{
    let call = SpecInstruction::Call("main"@);
    let between = comment_text(call) + line("  mov rax, [frame_start_ptr]"@)
        + push_rax_to_frame_text() + line("  mov  rax, [frame_end_ptr]"@) + line(
        "  mov  qword [frame_start_ptr], rax"@,
    );
    assert(X86_64::spec_entry() =~= line("entry _start"@) + line("_start: "@) + line(
        "  mov  qword [frame_start_ptr], frame_stack_end"@,
    ) + line("  mov  qword [frame_end_ptr], frame_stack_end"@) + between + line(
        "  call "@ + X86_64::spec_encode_name("main"@) + " ; -- "@ + "main"@,
    ) + line("exit:"@) + line("  mov  rax, 60"@) + line("  mov  rdi, 0"@) + line("  syscall"@));
}

} // verus!
