# rrtl_runtime

The planning and coordination core of a runtime that simulates RTL designs on many workers,
written and proved in Verus.

* `src/` is the library. Its functions carry contracts that Verus proves. Trusted are only three
  wrappers around the standard library, in `responses` and `worker_cli`.
  - `model/` holds the data types and their mathematical models.
  - `hierarchy`, `regions`, `partitions`, `placement`, `communication`, `bundle`, `launch`: from a
    compiled design to the plan that workers are launched by. `legality` says which partitions
    belong together, `slices` which signals a partition steps, `pipeline`, `placement_laws` and
    `conservation` what holds across the plans.
  - `topology`, `surrogate`: workers, their lanes, and surrogates that replace parts of a design.
  - `runtime`, `runtime_actions`, `runtime_lanes`, `runtime_storage`, `runtime_laws`,
    `checkpoint_run`, `recovery`, `shard_client`, `supervisor`: a runtime over shards, its
    checkpoints, and how it recovers.
  - `service*`, `responses`, `deployment`, `session*`, `script_run`, `loopback`, `remote_session`:
    what a worker does, and sessions of workers that exchange values along routes.
  - `autotune`, `autotune_run`: measuring topologies and picking the fastest.
  - `sv_gpu`, `words`, `limbs`: named ports and the words that their values are stored in.
  - `worker_cli`, `worker_process`, `transport`, `documents`: arguments, processes, frames and
    documents, as far as no device is involved.
* `tests/` runs the library.
* `app/` is the worker process and everything else that touches sockets, processes, threads or
  files. The engines that simulate a shard are plugged in there.

Engines, sockets and clocks are not part of the library. Its functions take what they report as
arguments, and say what is made of every possible report.
