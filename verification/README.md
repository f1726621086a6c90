# commandguard

A semantic paste firewall for shell commands. The library analyzes pasted
shell text for risky effects (remote download, dynamic execution, concealed
payloads, credential reads, persistence, privilege escalation, destructive
filesystem operations, external transmission), and decides what a guarded
terminal does with each input byte and each paste. Its behaviour is stated in
Verus contracts and proved.

## Layout

- `src/model.rs`: severities, confidence levels, effects, evidence, analyses.
- `src/text.rs`: character-level helpers (white space, case, search, join).
- `src/shell.rs`: the tokenizer, pipelines, variable expansion, command normalization.
- `src/rules.rs`: URL extraction, curl/wget/printf options, credential and startup paths.
- `src/decoder.rs`: bounded base64, hex and gzip decoding into text.
- `src/syntax.rs`: constructs found by tree-sitter's Bash grammar.
- `src/builder.rs`: accumulation of findings, and what every builder keeps.
- `src/semantics.rs`: what the analysis of a paste is, as spec functions.
- `src/analyzer.rs`: the analyzer, proved to compute `semantics::analysis_of`.
- `src/invariants.rs`: what holds of every analysis.
- `src/warning.rs`: the `analyze` report and the warning for a held paste.
- `src/guard.rs`: the bracketed-paste scanner, the alternate-screen switch and the review of a held paste.
- `src/bench.rs`: corpus labels and detection counts.
- `src/cli.rs`: the subcommands.
- `app/`: the program: argument parsing, the PTY, terminal I/O, the corpus walk and JSON output.
- `tests/`: tests of the library.
