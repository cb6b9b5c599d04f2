# anthropic-proxy

A proxy that serves the Messages API from any OpenAI-compatible upstream. It translates requests
and streams, carries out the browsing tools that local models lack, and can learn reusable
lessons from past conversations.

- `src/` is the library: configuration, translation, the tool loops and the learning rules, each
  function with its contract, verified by Verus.
  - `config/` reads the environment's texts into settings and resolves the endpoints.
  - `translate/` turns messages, tools, schemas and streams from one API's form into the other's;
    `protocol.rs` states what a client can rely on in a stream, and `websearch_agent.rs` holds the
    browsing loop as a state machine.
  - `skills/` holds what is learnt, from whom, when it is trusted, and when it is dropped.
  - `json.rs`, `strmap.rs`, `text.rs` and `numerals.rs` are what the rest stands on.
  - `search.rs` decides which backend a search goes to, and `skills/gate.rs` when.
- `tests/` runs the library on concrete values.
- `app/` is the program around it: the command line, the server, and the requests to upstreams,
  search servers and the vector store. It runs the loops whose decisions the library makes.

Similarity of embeddings is floating point and is computed in `app/`; the library decides on the
tables of what is alike.
