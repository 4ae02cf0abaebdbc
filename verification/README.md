# welds (verified core)

A Verus library holding the verified core of an object-relational mapper:

- `select_column`, `writers`: how a select query writes each column it reads,
  quoted per SQL dialect (`Syntax`), with `AS` only when the field is renamed.
- `relations`: the "has many" relation, its join keys and its relatedness test.
- `migrations`: hand-written migrations and the splitting of their SQL into
  separate commands, with the laws that splitting obeys.
- `fn_all`: the source, and the `proc_macro2` tokens, of the `all` function
  that the model derive adds to each model.
- `text`: Unicode white space, trimming, and character-level string building.
