# zero_bin

A coordinator that proves many blocks on request, with its decision logic verified by Verus.

`src/` is the library. It waits for nothing and sends nothing: it is told what happened and answers
with what to do next. Each run is a state machine whose `step` is proved equal to a `next` function
that the laws speak of.

- `input`, `manyprover`: what a request asks for, and the prover that is made for it.
- `sequential`, `parallel`, `task`: runs that prove blocks one after the other or several at a time,
  and the taskees of the latter. `sequential_laws` and `parallel_laws` state what holds of every run
  as a whole: which blocks are proved, what the statistics add up to, when a run ends and how.
- `crew`, `crew_laws`: a parallel run put together with its taskees and the channels between them,
  and what holds of the whole: no block is recorded twice, and none is left out.
- `prover`, `witness`: the steps that prove one block, and a trial that only generates its witness.
- `fetch`, `rpc`: what is asked of an RPC node, and what its answers come to.
- `benchmarking`, `proofout`: statistics of the blocks, and where proofs go.
- `settings`, `server`: settings from the environment, and what requests are answered.
- `gascalc`: a watch over the latest block and its gas.
- `text`, `time`, `words`: decimal and hexadecimal digits, points in time, 256-bit numbers.

`tests/` runs the library. `app/` is the binary around it: the web server, the RPC calls, the
channels and tasks, the files, and the calls into the proof system.

A request is a JSON body posted to `/`. This one proves the blocks 1 to 10, writes the proofs to
`test_1` to `test_10` and the statistics to `test.csv`:

```json
{
  "run_name": "run",
  "start_block_number": 1,
  "checkpoint_block_number": 1,
  "terminate_on": { "EndBlock": { "block_number": 10 } },
  "block_source": { "ZeroBinRpc": { "rpc_url": "http://localhost:8545/" } },
  "proof_output": { "LocalDirectory": { "prefix": "test" } },
  "benchmark_output": { "LocalCsv": { "file_name": "test.csv" } }
}
```
