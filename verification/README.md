# elysium

The verified core of a launcher for a Source engine game on Linux: the logic
that decides what to hook, what to load and what the engine is told, written
in Verus with contracts proved against it.

- `src/` is the library. Each module states its behaviour over mathematical
  models (`Seq`, `Map`-like sequences, spec functions) and proves it:
  memory maps and the ranges they cover (`maps`, `ranges`, `traits`), x86-64
  decoding and the hook jump (`assembly`, `dismal`, `mem`), the dynamic
  loader's modules, addresses and error messages (`link`), Unix paths
  compared by component (`paths`), the emulated engine command line
  (`command_line`), the console and the attribute rewriting that turns its
  command enum into a `clap` parser (`console`, `console_macro`), the engine's modules and log
  calls (`modules`, `tier0`), SDL event translation (`sdl`), and the module
  registry used to link interfaces (`framework`).
- Calls into `iced-x86`, `regex`, `memchr`, `findshlibs`, `rustc-demangle`,
  `cpp_demangle` and a few standard-library functions stand behind small
  trusted wrappers whose doc comments say what is assumed of them.
- `app/` holds what talks to the system (the loader's C interface, `/proc`
  maps, `libloading`, page protection, logging), the `clap` console parser and
  the floating-point vector math, all calling into the library for their
  decisions.
- `tests/` runs the library on concrete values.
