# ec

A simulator of the Educational Computer, Model 1 (from "Etudes for
Programmers"), written in Verus: the memory, the loader of absolute load files
(ALF), the instruction decoder and executor, and the supervisor's decisions
carry contracts that Verus proves.

- `src/mem`: memory of 8096 characters, big-endian words, registers in the
  first sixteen words.
- `src/alf`: ALF lines (records with checksums and data triples, and the END
  record with the start address).
- `src/cpu`: operation codes, decoding, and one fetch-decode-execute cycle;
  `semantics.rs` states what a cycle does.
- `src/sv`: what the supervisor does about a cycle's outcome.
- `app/`: the command line program (options, files, standard input and
  output, floating-point conversions).
