# mindwiki

The core of Mind Wiki, a knowledge base that lies encrypted on disk and is opened only behind a
key gateway. The library is written in Verus: what each function does is stated in its contract,
and proved.

## Layout

- `src/text.rs`, `src/order.rs`, `src/paths.rs`: texts, their order, and paths.
- `src/markdown.rs`, `src/graph.rs`, `src/tree.rs`, `src/snapshot.rs`, `src/browse.rs`: what is
  read out of a wiki: page types and links, the link graph, the file tree, what changed, one page.
- `src/container.rs`, `src/gateway.rs`, `src/vault.rs`, `src/secret.rs`: the encrypted container,
  the key gateway, and the sessions in which a vault is worked on.
- `src/skills.rs`, `src/llm.rs`, `src/agent.rs`, `src/prompts.rs`: what agents are told, and how
  their model is reached.
- `src/flow.rs`, `src/reply.rs`, `src/state.rs`: the state of the service, and the language in
  which requests are worked off. A request asks for one action after the other and is told of what
  each came to, so that every decision is a function of state and event.
- `src/gate.rs`, `src/upload.rs`, `src/ingest.rs`, `src/import.rs`, `src/bundle.rs`,
  `src/entry.rs`, `src/query.rs`, `src/chat.rs`, `src/settings.rs`: the requests.
- `src/laws.rs`: what holds of all requests together.
- `tests/`: scenarios, among them whole requests on a disk in memory.
- `app/`: the command line, the web service, files, version control, the key kernel and the agent
  runtime. It performs the actions that the library asks for.

## What is trusted

The contracts of a few wrappers are believed, not proved: reading and writing JSON (`serde_json`)
in `src/llm.rs`, reading zip archives (`zip`) in `src/import.rs`, and `String::push` in
`src/text.rs`. Each says in its comment what it claims of the function that it calls.
