# piiramid

A game in which monsters are beaten by writing the right algorithm: the
player writes a short script in a small duel language, and the script runs
on a budget of cycles against the monster's weakness.

- `src/` is the verified library (Verus): the lexer and parser of the duel
  language, the machine that decides cycles, calls, `invocar` blocks and the
  fight (`script::vm`), the rehearsal record, the bestiary, the inventory
  and save state, the phase progression, the grade's reference runs, the
  tile map parser, and the text logic of the screens (code editor, syntax
  highlighting, duel log, word wrapping).
- `app/` is the game around it (macroquad): windows, input, drawing, the
  save file (serde), and the evaluator of script expressions, whose numbers
  are floating point.
- `tests/` runs the library on concrete values.
