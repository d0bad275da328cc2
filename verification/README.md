# douglang

Douglang is a language of Dougs: a program moves a cursor along tapes of cells by
chains of `Doug`, stores values with `set`, speaks them with `tts`, and runs `loop`s,
`prediction`s and five minute coding adventures.

This crate is the verified core of its interpreter. The functions in `src/` carry
contracts that Verus proves, except a few marked `external_body` that call into std or
flate2 and whose contracts state what those calls give.

- `lexer`, `token`: source text to tokens.
- `parser`: tokens to the statement tree. `parser::grammar` states, as spec functions,
  what parsing a token sequence gives, line buffering included; the parser is proved
  to compute exactly that.
- `values::tape`: the memory (a heap of objects and a heap of literal numbers) and the
  tapes of cells that point into it, with laws on reading back what was written.
- `values::hashers`: hashing of statement trees to give each adventure a tape slot.
- `interpreter`: the names of adventures, where Doug notation points, and `step`: what
  each statement does, one answer at a time (loops end on `guoD`, predictions run the
  side that won, adventures are stored at the current cell, as `set` stores, and called on a scoped
  copy of their cells).
- `runtime`: runtime errors, foreign-call signatures, and the speech state file format.
- `compiler`: the C launcher a program compiles to.
- `dougterface::font`: unpacking WOFF fonts, blending pixels, breaking text into lines.

`app/` holds the program around it: the command line, the driver that answers what
`step` asks (evaluating expressions, whose arithmetic is on doubles, speaking, running
blocks), speech, the window and foreign calls.
