# recomp3ds

A static recompiler for Nintendo 3DS titles. It reads a title's code, finds the
functions in it and turns them into C, which compiles into a library an
emulator loads. Anything it did not find or cannot handle is left to the
emulator's interpreter.

The library under `src/` is written in Verus. Every function in it has a
contract, and the contracts are proved. The few facts about the standard
library that are taken on trust stand in `text`.

## Layout

- `rom` reads a decrypted dump, a cartridge image or a bare executable, one
  read at a time, and decompresses its code.
- `image` splits the code into its segments, `cro` reads the modules and
  applies their relocations.
- `arm` and `thumb` decode just enough to follow control flow, and `discover`
  finds the functions. What holds of every analysis is in `discover::laws`.
- `codegen` writes the functions as C, with `codegen::arm`, `codegen::thumb`
  and `codegen::vfp` lowering one instruction each. What holds of the C for
  every program is in `codegen::laws`, and what the condition of an instruction
  does to its C in `codegen::conditional`.
- `abi` looks addresses up in a library built from that C and keeps track of
  where its modules are loaded.
- `verify` holds the memory, the made up states and the comparison that a
  recompiled function is checked with.
- `report` and `compile` hold the numbers of an analysis and what compiling
  takes.
- `text`, `bytes` and `sorted` are what the others are built on.

The program is under `app/`. It reads the dump, runs the compiler, loads the
library and runs both sides of a comparison.

```
3dsrecomp analyze game.3ds
3dsrecomp build game.3ds out
3dsrecomp verify game.3ds out/<title id>.so
```

`build` takes the interface the C is written against, `recomp.h`, from the file
that `RECOMP_HEADER` names, or from the current directory. The compiler comes
from `CC`, and `cc` is used when `CC` is not set.
