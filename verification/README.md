# vex-bridge

The local agent that versions IFC exports: it scans inbox folders, hands
settled exports to the `vex` engine (import, commit, push), pairs the machine
with an architur account, and builds render artifacts for committed models.

- `src/` is the verified library. Every decision the agent takes is a function
  with a Verus contract: the wire protocol's validation, configuration
  migration, crash-report redaction, IFC header parsing, the import pipeline,
  pairing and request signing, render-cache publication and pruning, the fair
  render scheduler, and daemon supervision. Work that waits on the outside
  world (files, processes, HTTP, timers) is expressed as state machines whose
  `step` maps the outcome of the last action to the next action.
- `app/` is the executable around it: argument parsing, file and network I/O,
  the keychain, and the loops that carry out the state machines' actions.
- `tests/` exercises the library on concrete values.
