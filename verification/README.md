# starforge (verified core)

The computations behind the `starforge gas` and `starforge template` commands, written in
Verus and proved against their contracts.

- `src/text.rs`: decimal notation of integers, byte slices of text, shortening a path to a
  bound while keeping its tail, reading a comma-separated tag list, joining a list.
- `src/gas.rs`: the views of the gas commands: fee and quantity lines, the verdict of a
  build comparison, the cost summary of an estimate and the order of its follow-up steps
  (alert saved, alerts checked, estimate recorded), alert messages and rows, and which
  history entries are shown (newest first, filtered by network, limited).
- `src/template.rs`: the views of the template marketplace: tag filters and defaults,
  template names, source details, messages, and the example templates with their clock
  stamps.
- `app/`: the command-line layer: argument definitions, the calls into the program's
  utilities (configuration, cost estimation, optimizer, registry, terminal output) and the
  prompts.
- `tests/`: tests of the library on concrete values.
