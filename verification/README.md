# bf_cell_gen

Tools for an extended brainfuck ("bf-ext"): a compiler with macros,
settings and included files, a standard command compiler that turns the
commands into byte code for a machine with ports, a disassembler for that
byte code, and the devices that sit on the machine's ports (sequential cell
memory, command memory, consoles, a screen).

The library in `src/` is verified with Verus: each public function states
in its contract what it returns or changes, and the laws that tie several
functions together stand as proof functions beside them.

- `general`: space-efficient number encoding, iterators that can step back,
  text helpers.
- `compiler`: parsing of bf-ext files, macros, settings and their rules,
  the command compilers, the initial memory.
- `disasm`: the disassembler of the standard command compiler's output.
- `dev_emulators`: the devices (cell memory, command memory, consoles,
  screen) and their construction from names.
- `vm`, `logistics`, `emulators`: ports, machine description, the
  compile step for a run.

`app/` holds what talks to the outside world: the command line, files on
disk, the terminal for the consoles, and the screen window.
