# swpp_interpreter

An interpreter for the SWPP assembly language with its cost model, written in
Verus: the library under `src/` is verified, the program under `app/` reads
the files, runs the step loop with standard input and output, and writes the
final cost.

## Layout

- `src/common.rs`: costs and limits, access sizes, bit widths, comparison
  predicates, operands.
- `src/register.rs`: the registers of a call frame.
- `src/bytes.rs`, `src/heat.rs`, `src/debt.rs`, `src/memory.rs`: little-endian
  bytes, the heat of heap sectors, the debts of asynchronous loads, and the
  stack and heap memory.
- `src/effect.rs`, `src/inst.rs`: what each instruction does to the machine
  (a spec per instruction kind) and the code that runs it.
- `src/function.rs`, `src/program.rs`: functions, blocks, the global state and
  the step function that runs a program one instruction at a time; reading a
  number and writing one are actions handed to the caller.
- `src/properties.rs`: laws of the cost model and of calls, stated over the
  specs and proved.
- `src/parser/`: the assembly text, parsed against a grammar given as spec
  functions. The grammar reads one code per character (the character itself
  when it is ASCII, else a code chosen by its low byte) and takes names from
  the characters themselves; `total_program_parser` reads a whole program.
- `src/error.rs`, `src/text.rs`, `src/logger.rs`: error kinds and their
  messages, decimal text, and the logger interface.

## Running

`swpp_interpreter <assembly file> <cost file> [<log file>]` prints what the
program writes, one number per line, reads what it reads from standard input,
and writes `Final Cost : N` to the cost file.
