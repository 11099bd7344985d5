# adamant_vm

The Adamant Move virtual machine, written in Verus: the instruction
set, the bytecode and module wire formats, multi-dimensional gas
accounting and the interpreter's instruction semantics, each function
with a machine-checked contract.

Layout:

- `src/bytecode.rs`, `src/opcodes.rs`: the instruction set and the
  one-byte opcode space.
- `src/uleb128.rs`, `src/cursor.rs`: ULEB128 and a byte cursor.
- `src/bytecode_wire.rs`: function bodies to bytes and back, with the
  round trip proved.
- `src/module.rs`, `src/module_wire/`: modules and their binary
  format; `module_wire/laws.rs` proves that every module whose
  serialization succeeds (and whose bodies hold no deprecated
  global-storage instruction) decodes back to itself.
- `src/runtime/`: gas, frames, the dispatch of each instruction, the
  halves of a native call, constants, cryptographic requests, the
  resolver of loaded modules, and laws over the interpreter.
- `app/`: the dispatch loop, the native-handler registry, the
  cryptographic computations and error messages.
