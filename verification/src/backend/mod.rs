//! Backends turn the instructions of each function, and the program's data,
//! into assembler source text.

pub mod instruction;
pub mod text;
pub mod x86_64_fasm;
pub mod x86_64_properties;

pub use instruction::{
    InitData, Instruction, Operator, SpecInitData, SpecInstruction, UninitData,
};
pub use x86_64_fasm::X86_64;

use std::collections::HashMap;
use vstd::prelude::*;

verus! {

/// The mathematical form of a sequence of instructions.
pub open spec fn instruction_views(instructions: Seq<Instruction>) -> Seq<SpecInstruction> {
    instructions.map_values(|i: Instruction| i@)
}

/// The mathematical form of the functions handed to `compile`: each name
/// with its instructions.
pub open spec fn function_views(functions: Seq<(&str, Vec<Instruction>)>) -> Seq<
    (Seq<char>, Seq<SpecInstruction>),
> {
    functions.map_values(
        |f: (&str, Vec<Instruction>)| (f.0@, instruction_views(f.1@)),
    )
}

/// Every name in `listing` is a key of `map`, paired with the value that the
/// map holds for it.
#[verifier::opaque]
pub open spec fn lists_only_map_entries<V: View>(
    map: Map<String, V>,
    listing: Seq<(Seq<char>, V::V)>,
) -> bool {
    forall|i: int|
        #![trigger listing[i]]
        0 <= i < listing.len() ==> exists|k: String|
            #![trigger map.contains_key(k)]
            map.contains_key(k) && k@ == listing[i].0 && map[k]@ == listing[i].1
}

/// Every key of `map` is named in `listing`, paired with its value.
#[verifier::opaque]
pub open spec fn lists_every_map_entry<V: View>(
    map: Map<String, V>,
    listing: Seq<(Seq<char>, V::V)>,
) -> bool {
    forall|k: String|
        #[trigger] map.contains_key(k) ==> exists|i: int|
            0 <= i < listing.len() && listing[i].0 == k@ && #[trigger] listing[i].1 == map[k]@
}

/// No name occurs twice in `listing`.
#[verifier::opaque]
pub open spec fn names_distinct<T>(listing: Seq<(Seq<char>, T)>) -> bool {
    forall|i: int, j: int|
        0 <= i < listing.len() && 0 <= j < listing.len() && i != j ==> #[trigger] listing[i].0
            != #[trigger] listing[j].0
}

/// `listing` names every entry of `map` exactly once, each name with the
/// value that the map holds for it, in some order.
pub open spec fn lists_map<V: View>(map: Map<String, V>, listing: Seq<(Seq<char>, V::V)>) -> bool {
    &&& listing.len() == map.dom().len()
    &&& lists_only_map_entries(map, listing)
    &&& lists_every_map_entry(map, listing)
    &&& names_distinct(listing)
}

/// The entries of a map as the map's iterator hands them out
/// (`HashMap::iter`), each as its name and value.
///
/// std documents the iterator as visiting all key-value pairs once, in an
/// arbitrary order; the contract claims exactly that and leaves the order
/// open.
#[verifier::external_body]
pub(crate) fn map_entries<'a, V: View>(map: &'a HashMap<String, V>) -> (entries: Vec<
    (&'a String, &'a V),
>)
    ensures
        lists_map(map@, entries@.map_values(|e: (&'a String, &'a V)| (e.0@, e.1@))),
{
    map.iter().collect()
}

/// A code generator for one target.
///
/// Each method appends its text to `out`; the spec functions name that text,
/// so that generic code (such as `compile`) can state what it produces.
pub trait CodeGen {
    /// The assembler label under which a function of the given name is emitted.
    spec fn spec_encode_name(label: Seq<char>) -> Seq<char>;

    fn encode_name(label: &str) -> (name: String)
        ensures
            name@ == Self::spec_encode_name(label@),
    ;

    /// The instructions this target can translate.
    spec fn spec_can_emit(instruction: SpecInstruction) -> bool;

    /// The text of one instruction inside the function labelled `hash`.
    spec fn spec_instruction(hash: Seq<char>, instruction: SpecInstruction) -> Seq<char>;

    /// Whether this target can translate `instruction`.
    fn can_emit(instruction: &Instruction) -> (ok: bool)
        ensures
            ok == Self::spec_can_emit(instruction@),
    ;

    fn instruction(out: &mut String, hash: &str, instruction: &Instruction)
        requires
            Self::spec_can_emit(instruction@),
        ensures
            final(out)@ == old(out)@ + Self::spec_instruction(hash@, instruction@),
    ;

    /// The text that opens the output file.
    spec fn spec_open() -> Seq<char>;

    fn open(out: &mut String)
        ensures
            final(out)@ == old(out)@ + Self::spec_open(),
    ;

    /// The text of a whole function.
    spec fn spec_generate_function(label: Seq<char>, instructions: Seq<SpecInstruction>) -> Seq<
        char,
    >;

    fn generate_function(out: &mut String, label: &str, instructions: &[Instruction])
        requires
            forall|i: int|
                0 <= i < instructions@.len() ==> Self::spec_can_emit(#[trigger] instructions@[i]@),
        ensures
            final(out)@ == old(out)@ + Self::spec_generate_function(
                label@,
                instruction_views(instructions@),
            ),
    ;

    /// The program's entry point.
    spec fn spec_entry() -> Seq<char>;

    fn entry(out: &mut String)
        ensures
            final(out)@ == old(out)@ + Self::spec_entry(),
    ;

    /// The initialised data segment for the globals listed in this order.
    spec fn spec_init_data(listing: Seq<(Seq<char>, SpecInitData)>) -> Seq<char>;

    fn init_data(out: &mut String, data: &HashMap<String, InitData>)
        ensures
            exists|listing: Seq<(Seq<char>, SpecInitData)>|
                #![trigger Self::spec_init_data(listing)]
                lists_map(data@, listing) && final(out)@ == old(out)@ + Self::spec_init_data(
                    listing,
                ),
    ;

    /// The uninitialised data segment for the globals listed in this order.
    spec fn spec_uninit_data(listing: Seq<(Seq<char>, UninitData)>) -> Seq<char>;

    fn uninit_data(out: &mut String, data: &HashMap<String, UninitData>)
        ensures
            exists|listing: Seq<(Seq<char>, UninitData)>|
                #![trigger Self::spec_uninit_data(listing)]
                lists_map(data@, listing) && final(out)@ == old(out)@ + Self::spec_uninit_data(
                    listing,
                ),
    ;
}

/// The text of the listed functions, one after the other.
pub open spec fn functions_text<B: CodeGen>(
    functions: Seq<(Seq<char>, Seq<SpecInstruction>)>,
) -> Seq<char>
    decreases functions.len(),
{
    if functions.len() == 0 {
        Seq::empty()
    } else {
        functions_text::<B>(functions.drop_last()) + B::spec_generate_function(
            functions.last().0,
            functions.last().1,
        )
    }
}

/// Compiling two lists of functions one after the other gives their two
/// texts in a row: no function is dropped, repeated or moved.
pub proof fn lemma_functions_text_concat<B: CodeGen>(
    a: Seq<(Seq<char>, Seq<SpecInstruction>)>,
    b: Seq<(Seq<char>, Seq<SpecInstruction>)>,
)
    ensures
        functions_text::<B>(a + b) == functions_text::<B>(a) + functions_text::<B>(b),
    decreases b.len(),
{
    if b.len() == 0 {
        assert(a + b =~= a);
        assert(functions_text::<B>(a) + functions_text::<B>(b) =~= functions_text::<B>(a));
    } else {
        lemma_functions_text_concat::<B>(a, b.drop_last());
        assert((a + b).drop_last() =~= a + b.drop_last());
        assert((a + b).last() == b.last());
        assert(functions_text::<B>(a + b) =~= functions_text::<B>(a) + functions_text::<B>(b));
    }
}

/// The text of a single function is its definition.
pub proof fn lemma_functions_text_single<B: CodeGen>(f: (Seq<char>, Seq<SpecInstruction>))
    ensures
        functions_text::<B>(seq![f]) == B::spec_generate_function(f.0, f.1),
{
    let single = seq![f];
    assert(single.drop_last() =~= Seq::<(Seq<char>, Seq<SpecInstruction>)>::empty());
    assert(functions_text::<B>(single.drop_last()) =~= Seq::<char>::empty());
    assert(single.last() == f);
    assert(functions_text::<B>(single) =~= B::spec_generate_function(f.0, f.1));
}

/// Every function handed to `compile` is defined in its text, in the order
/// given: the definition of function `i` follows those of the functions
/// before it and precedes those of the functions after it.
pub proof fn lemma_every_function_defined<B: CodeGen>(
    functions: Seq<(Seq<char>, Seq<SpecInstruction>)>,
    i: int,
)
    requires
        0 <= i < functions.len(),
    ensures
        functions_text::<B>(functions) == functions_text::<B>(functions.take(i))
            + B::spec_generate_function(functions[i].0, functions[i].1) + functions_text::<B>(
            functions.skip(i + 1),
        ),
{
    let before = functions.take(i);
    let after = functions.skip(i + 1);
    let f = functions[i];
    assert(functions =~= before + seq![f] + after);
    lemma_functions_text_concat::<B>(before + seq![f], after);
    lemma_functions_text_concat::<B>(before, seq![f]);
    lemma_functions_text_single::<B>(f);
}

/// Every instruction of every listed function can be translated by `B`.
pub open spec fn can_emit_all<B: CodeGen>(functions: Seq<(Seq<char>, Seq<SpecInstruction>)>) -> bool {
    forall|f: int, i: int|
        0 <= f < functions.len() && 0 <= i < functions[f].1.len() ==> B::spec_can_emit(
            #[trigger] functions[f].1[i],
        )
}

/// The whole assembler source of a program: the file header, every
/// function in the order given, the entry point, and the two data segments.
///
/// The globals of each segment come in the order in which the map hands them
/// out; the contract names that order `listing` and pins the text down for
/// it.
pub fn compile<B: CodeGen>(
    functions: &Vec<(&str, Vec<Instruction>)>,
    init_data: &HashMap<String, InitData>,
    uninit_data: &HashMap<String, UninitData>,
) -> (text: String)
    requires
        can_emit_all::<B>(function_views(functions@)),
    ensures
        exists|
            init_listing: Seq<(Seq<char>, SpecInitData)>,
            uninit_listing: Seq<(Seq<char>, UninitData)>,
        |
            #![trigger B::spec_init_data(init_listing), B::spec_uninit_data(uninit_listing)]
            {
                &&& lists_map(init_data@, init_listing)
                &&& lists_map(uninit_data@, uninit_listing)
                &&& text@ == B::spec_open() + functions_text::<B>(function_views(functions@))
                    + B::spec_entry() + B::spec_init_data(init_listing) + B::spec_uninit_data(
                    uninit_listing,
                )
            },
{
    let mut out = String::new();
    B::open(&mut out);
    let ghost fs = function_views(functions@);
    assert(fs.take(0) =~= Seq::<(Seq<char>, Seq<SpecInstruction>)>::empty());
    assert(out@ =~= B::spec_open() + functions_text::<B>(fs.take(0)));
    for f in 0..functions.len()
        invariant
            fs == function_views(functions@),
            can_emit_all::<B>(fs),
            out@ == B::spec_open() + functions_text::<B>(fs.take(f as int)),
    {
        let (label, instructions) = &functions[f];
        assert forall|i: int| 0 <= i < instructions@.len() implies B::spec_can_emit(
            #[trigger] instructions@[i]@,
        ) by {
            assert(fs[f as int].1[i] == instructions@[i]@);
        }
        B::generate_function(&mut out, label, instructions.as_slice());
        assert(fs.take(f + 1).drop_last() =~= fs.take(f as int));
        assert(out@ =~= B::spec_open() + functions_text::<B>(fs.take(f + 1)));
    }
    assert(fs.take(functions@.len() as int) =~= fs);
    B::entry(&mut out);
    let ghost with_entry = out@;
    B::init_data(&mut out, init_data);
    let ghost init_listing = choose|listing: Seq<(Seq<char>, SpecInitData)>|
        lists_map(init_data@, listing) && out@ == with_entry + B::spec_init_data(listing);
    let ghost with_init = out@;
    B::uninit_data(&mut out, uninit_data);
    let ghost uninit_listing = choose|listing: Seq<(Seq<char>, UninitData)>|
        lists_map(uninit_data@, listing) && out@ == with_init + B::spec_uninit_data(listing);
    assert(out@ =~= B::spec_open() + functions_text::<B>(fs) + B::spec_entry() + B::spec_init_data(
        init_listing,
    ) + B::spec_uninit_data(uninit_listing));
    out
}

} // verus!
