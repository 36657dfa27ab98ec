# full_moon

A lossless tokenizer and syntax-tree toolkit for Lua (5.1 to 5.4 and Luau), written in
Verus, which proves each function against its contract.

Visitors are handed to each hook by value and handed back by it, so that the contracts of
the tree walks can say which hooks were handed what, in which order, and that the result
is what the hooks gave back. A block parser, which `parse` drives over a source, promises
in its contract to read whole lexemes, to record the tokenizer errors it meets, and, when
it meets no error, to give a block that prints as what it read and to stop only where no
statement starts; from this `parse` proves that the errors hold every tokenizer error of
the source, that each error is about a lexeme of the source unless the parser records
errors of its own, that no unexpected token is reported right after another, and that a
tree given back prints as the source, every token of it ending before the end of file.

## Layout

- `position`, `text`: positions in source text and small helpers on characters.
- `symbol`: the symbols of the language, their text, and reading a symbol back from text.
- `grammar`: the lexical grammar as spec functions: where each lexeme of a source ends,
  which error it raises, and which token it gives.
- `scan`, `source`, `lexer`: the executable lexer, proved to follow the grammar; `tokens`
  tokenizes a whole source, and the tokens it gives print back that source exactly.
- `tokenizer`: tokens, token references with their trivia, and tokenizer errors.
- `symbol_text`: reading one symbol, with the whitespace around it, from text.
- `parser_structs`, `error`: the state of a parser and the errors it records.
- `parse`: the recovery loop that drives a block parser over a whole source and always
  gives back a tree.
- `ast`, `span`, `syntax`, `node`, `util`, `visitors`, `versions`, `language`: blocks and
  trees, contained spans, the return statement and operators with their precedence, the
  `Node` view of everything made of token references, printing helpers, visitors, and the
  set of Lua versions a parse is made for.

The tests under `tests/` run the library on concrete sources.
