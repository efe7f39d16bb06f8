# fuzzamoto

The verified core of a fuzzer for Bitcoin nodes, and the tool around it.

`src/` is a library whose behaviour is stated in contracts and proved by Verus:

- `ir`, `typing`, `builder`: test programs, what their variables are, and their
  construction. A program that comes out of a builder is well typed.
- `generators`, `mutators`, `tapscript`: what extends and changes programs at
  random. A generator draws a plan and then writes the code of the plan; the code
  of a plan is fixed by its contract.
- `input`: the inputs of a campaign, with the trace of what made them.
- `bench`: the configuration of benchmark suites, the samples of their runs and
  the reports on them. Measurements with a fraction come in as text, or as integer
  keys that are ordered as the measurements are.
- `random`: draws from a random number generator, of which only what holds of
  every outcome is stated.

The functions named `law_*` state what holds across functions.

`app/` is the command line tool: files, processes, floating point, and the stage
and input types of the fuzzing engine. The pages and scripts of the charts are
read from `assets/bench` when they are written next to a report.

`tests/` runs the library on concrete values.
