# inference_gateway

A gateway in front of language models: it admits requests, puts them on a
stream as jobs, runs the jobs, and brings their results back. The library under
`src/` holds the rules and is verified with Verus; the programs under `app/` hold
the I/O and call it.

| Module | What it holds |
| --- | --- |
| `access` | API keys and bearer tokens |
| `admission` | a request's way to its job: checked, paid for, published or given up |
| `budget` | token estimates, and whether a prompt and its output fit a model |
| `quota` | quotas per API key and minute, kept in memory |
| `session` | the life of a GPU session |
| `streams` | what is sent to the broker, and what its answers mean |
| `reply` | where the entry stands in a reply of the broker |
| `frontend` | admission, jobs, and what results become for the caller |
| `engine` | a job's way to its end, and a runtime's stream as tokens and usage |
| `frontdoor` | the door for the workers: admission, bodies, answers |
| `door` | a generation's way through that door: paid for, dispatched, settled |
| `worker` | what a worker answers, and in which order it works |
| `temporal` | how the workflow service is reached |
| `envelope` | envelopes of the Connect protocol |
| `sse` | server-sent events out of chunks of text |
| `json` | JSON documents and the parts that are asked for |
| `cache` | cache keys |
| `text`, `ids`, `clock` | text, identifiers, time |

Temperatures are floating-point numbers: the library leaves them out of the
documents that it builds, and the programs put them in.

`app/main.rs` takes the program as its first argument: `token-budget`,
`frontend`, `engine`, `frontdoor`, `worker`, `temporal-worker`, `connect-smoke`
or `frontdoor-smoke`.
