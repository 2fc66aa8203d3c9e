# lib

The code generator of a small compiler: it translates the instructions of a
stack machine, function by function, together with the program's globals,
into flat-assembler (fasm) source for a static x86-64 ELF executable.

- `src/backend/instruction.rs`: the instruction set and the global data, with
  their mathematical forms.
- `src/backend/text.rs`: lines, numerals and repetition, the building blocks
  of the emitted text.
- `src/backend/mod.rs`: the `CodeGen` trait and `compile`, which assembles a
  whole program.
- `src/backend/x86_64_fasm.rs`: the x86-64 backend, each method proved to emit
  exactly the text its specification describes.
- `src/backend/x86_64_properties.rs`: properties of that text (valid labels,
  jumps and calls that reach their targets, whole lines).
- `app/lib.rs`: writes the compiled program to a file.
