# glaredb_lite

Verified pieces of a SQL engine, written in Verus:

- `like`, `like_laws`, `like_rewrite`: classification of LIKE patterns, the
  semantics of LIKE, the proof that the cheaper string tests answer LIKE
  exactly for every pattern they replace (patterns with a `\` escape are
  left as they are), and the optimizer rule that rewrites LIKE calls in
  expression trees, with the proof that it keeps every expression's value.
- `slt`, `slt_types`, `format`: turning result batches into sqllogictest rows
  (multiline cells expanded line by line) and schemas into sqllogictest
  column types.
- `bool_reader`: reading bit-packed booleans, least significant bit first.
- `column_expr`, `batch`, `scalar`, `expr`, `expr_eval`: values, arrays, batches,
  expressions and their values on a row, and the physical column read.
- `logical`, `explain`: aggregate and expression-list plan nodes, their output
  table refs, expression visitors and EXPLAIN entries.
- `text`: character-level string helpers.
