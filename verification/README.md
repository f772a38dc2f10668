# burn_pc

Building blocks for predictive-coding and other local-learning pipelines on
Burn, with the structural logic verified in Verus.

- `src/` — the verified library: factor-graph metadata and its validation
  (`graph`), inference/learning schedules (`schedule`), clipping geometry of
  gradient norms (`lib.rs`), the optimizer kinds (`optimizer`), and the
  decisions of predictive context discovery: the sequential novelty gate,
  routing of an observation among known contexts, and context allocation
  (`context`). Each public function states its result exactly; the `law_*`
  proof functions state properties that span calls.
- `app/` — what runs on Burn tensors or host floating point (latent inference,
  local factor derivatives, parameter optimizers, loss calibration of the
  context bank, numerical derivative checks), the serde records of the
  library's types, and error text. It calls the library for every structural
  decision.
- `tests/` — tests of the library.
