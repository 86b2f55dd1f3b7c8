# miles_control

The control plane of the Miles reinforcement-learning system: it validates job
specifications, places jobs on GPUs, drives the lifecycle of jobs, keeps them in a
store with snapshots on disk, and serves them over HTTP. The library under `src/` is
verified with Verus; the program under `app/` does the input and output around it.

| Module          | What it holds                                                        |
| --------------- | -------------------------------------------------------------------- |
| `api`           | job specifications and their validation, runtimes, events            |
| `scheduler`     | assignment of GPU indices                                            |
| `lifecycle`     | what an action does to a job in a given state                        |
| `orchestrator`  | transitions, command contexts, periodic actions                      |
| `run`           | a whole run of a job: its script, and the driver that follows it     |
| `state_store`   | the store interface and the store in memory                          |
| `file_store`    | the store with snapshots: names, writes, restoring, listing          |
| `worker_client` | the interface to workers and a client without workers                |
| `registry`      | the workers that are known                                           |
| `server`        | the state behind the HTTP API and the requests on it                 |
| `ids`, `clock`, `text` | UUIDs, time and text, as the library has them from outside    |

Proof functions named `law_..` state what holds across functions: that a store restored
from the directory that another one wrote to holds the same jobs, as long as no job lies
there under two spellings of its id; that an action that succeeds leaves the job
persisted; that repeating an action does nothing; that a placement gives out each GPU
once.

The program has three commands: `validate` prints the placement of a job, `run` drives
a job with nothing behind it, and `serve` answers the API under `/v1` with snapshots in
a directory.
