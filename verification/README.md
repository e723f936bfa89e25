# yac8

A CHIP-8 interpreter whose core is verified with Verus.

- `src/instructions.rs`: opcode fields and the decoder of the supported instructions.
- `src/machine.rs`: the interpreter state as mathematical values and the meaning of every opcode.
- `src/system.rs`: the interpreter (`Chip8`): fetch, execute, timers, start-up and reset,
  program loading, and the reaction to host events (keys, pause, single step, debug mode,
  reset, breakpoints).
- `src/display.rs`: the 64 x 32 frame buffer, its colours and its geometry on the host window.
- `src/config.rs`: the settings and the command-line parser.
- `src/laws.rs`: properties that relate several operations.
- `app/`: the SDL2 window, the egui debugger, audio and the main loop.
