//! The instruction set that the backends translate, and the data that a
//! program places in its initialised and uninitialised data segments.

use vstd::prelude::*;

verus! {

/// Operators of the source language, as the code generator sees them.
#[derive(Debug, Clone)]
pub enum Operator {
    Plus,
    Minus,
    Star,
    Slash,
    Modulo,
    GreaterEqual,
    GreaterThan,
    LessThan,
    LessEqual,
    Equal,
    BangEqual,
    Ampersand,
    Pipe,
    Caret,
    ShiftLeft,
    ShiftRight,
    /// A prefix operator (such as `-` or `!`) applied to one operand; earlier
    /// passes rewrite these into other instructions before code generation.
    Unary { symbol: char },
    /// Load `size` values of `width` bytes each from the address on the stack.
    Read,
    /// Store `size` values of `width` bytes each to the address on the stack.
    Write,
}

/// One instruction of the stack machine.
///
/// The machine keeps values on the hardware stack and local variables in a
/// separate frame stack, delimited by `frame_start_ptr` and `frame_end_ptr`.
#[derive(Debug, Clone)]
pub enum Instruction {
    /// Reserve `bytes` bytes on the frame stack.
    FrameReserve { bytes: usize },
    /// Push `bytes` quad words read from the frame, starting `offset_from_end`
    /// quad words above its end.
    PushFromFrame { offset_from_end: usize, bytes: usize },
    /// Push the address `offset_from_end` quad words above the frame's end.
    PushPtrToFrame { offset_from_end: usize, bytes: usize },
    /// Move `quad_words` values from the stack onto the frame stack.
    PushToFrame { quad_words: usize },
    /// Push onto the frame stack a pointer into the current frame.
    FramePtrToFrameReserve { offset: usize, size: usize, width: usize },
    /// Opening of a block; emits no code.
    StartBlock,
    /// Closing of a block: release `bytes_to_free` bytes of the frame stack.
    EndBlock { bytes_to_free: usize },
    /// Apply an operator; `size` is `(count, width)` for memory accesses.
    Operator { op: Operator, size: Option<(usize, usize)> },
    /// Unconditional jump to the destination numbered `dest_id`.
    Jump { dest_id: usize },
    /// Pop a value and jump to `dest_id` when it is zero.
    JumpFalse { dest_id: usize },
    /// A jump destination.
    JumpDest { id: usize },
    /// Push a constant.
    PushU64(u64),
    /// Push the address of a global.
    PushGlobal { id: String },
    /// Call the function with the given source name.
    Call(String),
    /// Initialise a local array variable to point at its data in the frame.
    InitLocalVarArr { offset_to_var: usize, offset_to_data: usize, data_size: usize, data_width: usize },
    /// A system call with `n` arguments (plus the call number) on the stack.
    Syscall(usize),
    /// Return from the current function.
    Return,
}

/// The mathematical form of an instruction, with names as character
/// sequences: what the contracts speak of.
pub enum SpecInstruction {
    FrameReserve { bytes: usize },
    PushFromFrame { offset_from_end: usize, bytes: usize },
    PushPtrToFrame { offset_from_end: usize, bytes: usize },
    PushToFrame { quad_words: usize },
    FramePtrToFrameReserve { offset: usize, size: usize, width: usize },
    StartBlock,
    EndBlock { bytes_to_free: usize },
    Operator { op: Operator, size: Option<(usize, usize)> },
    Jump { dest_id: usize },
    JumpFalse { dest_id: usize },
    JumpDest { id: usize },
    PushU64(u64),
    PushGlobal { id: Seq<char> },
    Call(Seq<char>),
    InitLocalVarArr { offset_to_var: usize, offset_to_data: usize, data_size: usize, data_width: usize },
    Syscall(usize),
    Return,
}

impl View for Instruction {
    type V = SpecInstruction;

    open spec fn view(&self) -> SpecInstruction {
        match self {
            Instruction::FrameReserve { bytes } => SpecInstruction::FrameReserve { bytes: *bytes },
            Instruction::PushFromFrame { offset_from_end, bytes } => SpecInstruction::PushFromFrame {
                offset_from_end: *offset_from_end,
                bytes: *bytes,
            },
            Instruction::PushPtrToFrame { offset_from_end, bytes } => SpecInstruction::PushPtrToFrame {
                offset_from_end: *offset_from_end,
                bytes: *bytes,
            },
            Instruction::PushToFrame { quad_words } => SpecInstruction::PushToFrame {
                quad_words: *quad_words,
            },
            Instruction::FramePtrToFrameReserve { offset, size, width } =>
                SpecInstruction::FramePtrToFrameReserve { offset: *offset, size: *size, width: *width },
            Instruction::StartBlock => SpecInstruction::StartBlock,
            Instruction::EndBlock { bytes_to_free } => SpecInstruction::EndBlock {
                bytes_to_free: *bytes_to_free,
            },
            Instruction::Operator { op, size } => SpecInstruction::Operator { op: *op, size: *size },
            Instruction::Jump { dest_id } => SpecInstruction::Jump { dest_id: *dest_id },
            Instruction::JumpFalse { dest_id } => SpecInstruction::JumpFalse { dest_id: *dest_id },
            Instruction::JumpDest { id } => SpecInstruction::JumpDest { id: *id },
            Instruction::PushU64(n) => SpecInstruction::PushU64(*n),
            Instruction::PushGlobal { id } => SpecInstruction::PushGlobal { id: id@ },
            Instruction::Call(func) => SpecInstruction::Call(func@),
            Instruction::InitLocalVarArr { offset_to_var, offset_to_data, data_size, data_width } =>
                SpecInstruction::InitLocalVarArr {
                offset_to_var: *offset_to_var,
                offset_to_data: *offset_to_data,
                data_size: *data_size,
                data_width: *data_width,
            },
            Instruction::Syscall(n) => SpecInstruction::Syscall(*n),
            Instruction::Return => SpecInstruction::Return,
        }
    }
}

/// A global with an initial value.
#[derive(Debug, Clone)]
pub enum InitData {
    /// The bytes of a string.
    String(String),
    /// An array header: its length and the label of its elements.
    Arr { size: usize, pointer: String },
}

/// The mathematical form of an initialised global.
pub enum SpecInitData {
    String(Seq<char>),
    Arr { size: usize, pointer: Seq<char> },
}

impl View for InitData {
    type V = SpecInitData;

    open spec fn view(&self) -> SpecInitData {
        match self {
            InitData::String(s) => SpecInitData::String(s@),
            InitData::Arr { size, pointer } => SpecInitData::Arr { size: *size, pointer: pointer@ },
        }
    }
}

/// A global without an initial value.
#[derive(Debug, Clone)]
pub enum UninitData {
    /// A region of `size` quad words.
    Region(usize),
}

impl View for UninitData {
    type V = UninitData;

    open spec fn view(&self) -> UninitData {
        *self
    }
}

/// The text that the derived `Debug` implementation writes for an
/// instruction (`format!("{:?}", ..)`).
pub uninterp spec fn instruction_debug_text(instruction: SpecInstruction) -> Seq<char>;

/// Formats an instruction with its derived `Debug` implementation.
///
/// The contract only ties the text to the instruction through
/// `instruction_debug_text`: std documents the derived `Debug` output as not
/// stable, so nothing is claimed about its shape.
#[verifier::external_body]
pub(crate) fn debug_text(instruction: &Instruction) -> (text: String)
    ensures
        text@ == instruction_debug_text(instruction@),
{
    format!("{:?}", instruction)
}

} // verus!
