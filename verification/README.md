# contra_nes

A NES for one game, as a verified library: processor, picture and sound units, cartridge
board, memory map, controllers, a tile renderer, a replay of recorded frames and a
recompiler of 6502 code. Everything under `src/` is proved with Verus against its contracts.

| Module | What |
|--------|------|
| `instr`, `machine`, `cpu` | the 6502: opcode table, what an instruction does, its execution |
| `memory`, `bus` | the memory map, transfers to sprite memory, controllers |
| `ppu_core`, `sprite_unit`, `line_buffer`, `ppu` | the picture, dot by dot |
| `channels`, `apu`, `audio` | the sound channels, their clocks, the sample queue |
| `cartridge` | iNES images and the UxROM board |
| `nes` | the whole machine, three dots per cycle |
| `game`, `renderer`, `palette`, `image` | replay, tile renderer, image files |
| `input`, `pacing` | the input script, keys, frame pacing |
| `contra` | the scanline-batched machine, and the recompiler with the code it writes |
| `*_laws` | what holds across functions |

Each type has a model (`view`) and each operation a function on models; contracts say that
the operation moves the model as that function does.

`app/` is the program around it: window, sound output, terminal, command line. Sample mixing
is done there, in floating point. `tests/` runs the library.
