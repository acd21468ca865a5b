# tinymemory

The decisions of a memory layer for agents, as a library whose behaviour is stated in
contracts and proved by Verus.

`src/` decides and computes. It reads no file, opens no connection and waits for nothing:
where something outside has to be done, a function says what, and takes the answer.

| Module | What it holds |
| --- | --- |
| `documents` | Which row a document write addresses, the write itself, reads, listings, deletions, batches, embedding requests |
| `backfill` | A pass that files stored connector documents into the memory tree |
| `sync`, `sources` | Connector identities, what the tree is handed, source pipelines, failure policy |
| `summarise` | The fold that needs no model, and the retry policy around one that does |
| `livingbrain` | Requests of a client of LivingBrain's hosted API |
| `cortex` | Receipts of a CortexDB service |
| `episodic` | Conversation segments and their lifecycle |
| `provider` | An in-memory provider that serves every family and logs every call |
| `json`, `rows`, `text` | JSON values, tables of rows and texts |
| `outside` | The calls into other crates, each with what is relied on |

Floating-point numbers appear as their bit patterns, times as milliseconds since the epoch.
Properties that span several functions are the public proof functions named `law_`.

`tests/` runs the library on concrete values. `app/` is ordinary Rust around it: SQLite,
HTTP, the async runtime and the wire forms.
