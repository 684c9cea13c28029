# rlox

The front end of a Lox interpreter: a scanner that turns source text into
tokens, a recursive-descent parser of expressions, and a printer that writes
expressions in prefix form. The library under `src/` is verified with Verus:
each public function's contract states its result over mathematical models
(`lexical.rs` and `grammar.rs` define what a scan and a parse give), and
`scan_properties.rs` and `parse_properties.rs` prove properties that hold of
every scan and every parse.

Numbers are held as the decimal numerals that denote them: the printer
writes a number as its numeral, and the program under `app/` reads a number
token's numeral as an `f64` where it prints the token. `app/` also holds the
command line, file and prompt input, and the error messages.
