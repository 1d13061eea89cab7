# fiducia_mcp_server

Diagnostics for the fiducia.cloud stack as tools of an MCP server, with the rules
of the tools proved in Verus.

The library in `src/` holds what the tools decide and compute. It makes no
exchange itself: a tool is called with its parameters and leads, step by step, to
a reply, and each step says which request to send or which command to run. The
program in `app/` makes the exchanges and hands their outcomes back.

| Module | What it holds |
|---|---|
| `server` | the tools, their parameters, steps and replies |
| `upstream` | configuration, base URLs, credentials and GET requests of the planes |
| `cloudflare` | zones and DNS records: requests, answers, paging, writes |
| `domains` | RDAP, expected DNS records, the `fiducia` preset |
| `k8s` | `kubectl` commands, the check of contexts, summaries of what is printed |
| `flags`, `env_map` | the command line and the environment as values |
| `filters` | the check of log filters |
| `json`, `http`, `text` | trees, statuses, texts |
| `repo_map`, `shared_bootstrap` | the map of the organisation, the name of the service |

Every function states in its contract what it returns for every input that it
takes. The functions on the command line leave out log filters that the outside
parser would cut inside a character; `flags::try_process_startup_flags` and
`flags::try_process_log_filter` take every filter and tell. On top of that stand,
among others, these theorems:

- The tools only read, whatever is answered, but for the two that write DNS
  records, and those too unless `FIDUCIA_MCP_ALLOW_MUTATIONS` is `1`
  (`server::only_unlocked_tools_write`).
- No reply depends on the value of a secret (`server::no_secret_is_shown`).
- Every `kubectl` command only reads, and none names a context that was not
  listed and allowed before (`k8s::every_command_only_reads`,
  `k8s::a_context_is_checked_before_it_is_used`).
- A write updates the record of the same type and name or else creates one, and
  all pages of a zone are listed in order (`cloudflare::an_existing_record_is_updated`,
  `cloudflare::all_pages_are_listed`).
- At most one RDAP redirect is followed (`domains::at_most_one_redirect`).

What outside crates do stands behind small functions whose contracts are believed:
reading and writing JSON (`serde_json`), parsing URLs and naming statuses
(`reqwest`), checking log filters (`tracing-subscriber`).
