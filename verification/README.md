# chip8_core

A CHIP-8 interpreter core written in Verus, with a desktop front end.

- `src/instruction.rs` — the instruction set and the opcode decoder.
- `src/machine.rs` — the mathematical model of the machine (`EmuState`) and
  the meaning of every instruction, of a fetch-and-execute cycle, of the timers
  and of a run of cycles.
- `src/emu.rs` — the interpreter `Emu`, each operation proved against the model.
- `src/frontend.rs` — game speed by ROM name, keyboard layout, pixel layout.
- `src/laws.rs` — properties across instructions and cycles.
- `src/rng.rs`, `src/text.rs` — the calls into `rand` and `str::to_lowercase`.
- `app/main.rs` — SDL window, keyboard events, rodio beeper, ROM loading.
