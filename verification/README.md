# consensus

A verified core for consensus deliberation: participants record claims,
relations, stances and resolutions in a shared log; an assistant drafts
entries locally for its participant; a gateway hands chat jobs to workers.

`src/` is the library, written in Verus. Each public function states in its
contract what it returns, and the properties that span calls are proof
functions:

- `solver` — the grounded labelling of an attack graph;
- `coordinator`, `drafts`, `conversation`, `app` — the reducers of the local
  app: committed-entry sequencing with page-sized fetches, local drafts,
  the assistant conversation, and their composition;
- `entry_buffer` — a session's entries taken in log order, and the
  participant's submission followed as its entries are echoed;
- `seeding` — appending a fixture log to a session and checking what the
  session kept;
- `materialized`, `render`, `preview` — the views of the deliberation
  state, drafts applied or not, and the impact of the drafts;
- `response`, `sse`, `stream_json`, `llm_turn`, `app_tools`,
  `tool_arguments`, `tool_schema`, `system_prompt`, `prompt` — reading and
  assembling streamed completions, the tool rounds of a turn, reading tool
  call arguments (claim references included) from their JSON text,
  decoding tool calls and describing their arguments, prompts and
  confirmations;
- `console` — what the interactive console does with a typed line;
- `gateway` — the dispatch kernel: idle workers, active streams, heartbeats
  and timeouts (shared sessions are not part of the kernel here: only
  their identifiers and the session connection's decisions are);
- `runtime`, `connection` — routing the kernel's effects to the handles
  still held, and the step functions of the session and worker
  connections;
- `fixtures`, `session`, `auth`, `entries_page`, `whisper`, `shell`,
  `worker_query`, `trace_text`, `backoff`, `json`, `strings`, `order`,
  `types` — the rest.

`tests/` runs the library. `app/` holds what the library leaves to its
callers: the JSON of the chat and session protocols, the tool schemas as
JSON, the console's printed lines and the shell tool's process.
