# z6m_prover

A prover of blocks. It executes blocks in a guest machine, proves the executions, and runs as a
service that follows the chain, proves every n-th block and submits the proofs to a collector.

- `src/` is the library: the decisions of the program, verified with Verus. Each public function
  says in its contract what it returns. Functions whose names begin with `law_` state what holds of
  several of them together.
- `app/` is the program around the library: the command line, files, the network, the guest machine
  and the prover.
- `tests/` runs the library on concrete values.

## The library

| Module | What it decides |
| --- | --- |
| `fetcher` | which blocks are fetched, in which order, and what is queued |
| `worker` | what is done with each block: execution, preflight, proof, file, record |
| `test_service` | executing a range of blocks from disk |
| `retry` | how often the head of the chain is asked for |
| `ethproofs` | requests to the proof collector, retries, and proofs that are kept |
| `setup` | the layers of a prover and the cache of what was built |
| `envelope`, `security` | the forms in which proofs and keys leave the program |
| `oracle` | the words that the guest reads |
| `service`, `commands` | configuration, and what each mode and command needs |
| `inputs`, `execution`, `run` | paths of inputs, runs of the guest, records of runs and proofs |
| `clock`, `json`, `path`, `text` | points in time, JSON, paths and numbers as text |

The machines of `fetcher`, `worker` and `test_service` take an event and give an action. The program
carries out the action and reports the event that came of it.

What the library has from other crates stands behind small functions marked
`#[verifier::external_body]`, whose contracts are taken on trust: `flate2`, `base64`, `serde_json`,
`reqwest` (the text of a status), `chrono` and `url`, and two functions of the standard library.
