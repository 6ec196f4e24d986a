# soroban_cost_linter

Lints for Soroban smart contracts that find code which costs more than it has
to: storage operations and host calls in loops, needless clones of the
environment, symbols that could be made at compile time, and the like. The rules
of the lints, and of the `cargo cost-lint` command that runs them, are a library
written in Verus: each function states what it returns, and Verus proves it.

- `src/hir.rs`, `src/loops.rs`, `src/paths.rs`: the expressions of a contract, the
  loops around them, and the items of the SDK that they lead to.
- `src/lint.rs`, `src/passes/`: the lints, and one pass for each.
- `src/json.rs`, `src/findings.rs`: reading findings out of the compiler's
  messages.
- `src/session.rs`, `src/cli.rs`: a run of the command.
- `src/fixes.rs`, `src/sarif.rs`: applying fixes, and the report in SARIF.
- `src/text.rs`: text as a sequence of characters.
- `app/main.rs`: the command, around the library.
- `app/plugin.rs`: the dylint library, which hands the compiler's expressions to
  the passes. It needs the compiler's own crates and is built apart from the
  command.
