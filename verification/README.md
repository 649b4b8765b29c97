# ccm_reproduction

Verified decision logic of the harness that reproduces the
Connes–Consani–Moscovici zeta spectral triple at high precision.

`src/` is the library, proved with Verus:

- `cli` — the command-line grammar (three subcommands, their flags and
  defaults, and the journal flags every subcommand shares);
- `commands` — whether a `run`, `check-evenness` or `sector-gap` request is
  admissible, and how an admissible run is carried out;
- `research` — capture levels, explicit ordinal root targets and reference
  seed windows;
- `capture` — capture applicability policies, the diagnostics a capture
  requests, and the recipe details of the shared capture plan;
- `journal` — the order in which a capture journal is written, as a step
  function from state and outcome to the next action;
- `benchmark` — stage timings (kept in name order), report comparability and
  per-stage deltas;
- `paths` — equality of paths by their components;
- `alignment` — the optimal monotone one-to-one alignment of discovered roots
  with reference zeros;
- `discovery` — classification of discovered roots for the
  discovery-ordering report;
- `lexical`, `text` — reading numbers and lists from tokens, rendering
  numbers, and string order.

`app/` holds the program around it: the numerical toolkit calls, the
arbitrary-precision and floating-point comparisons, journals and reports on
disk, and printing.
