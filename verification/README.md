# halvor

`halvor` manages a homelab: the hosts and SMB servers described in a `.env`
file and in a local SQLite database, the agents that run on each host, and
the commands that provision and maintain them.

The library in `src/` is verified with Verus. It holds the decisions and the
text processing of the tool, each function with a contract:

- `envparse`, `config`, `env_file`: reading the `.env` variables into host and
  SMB configurations, resolving host names, and rewriting a `.env` file when a
  host is written or removed (writing drops comments and the host's old
  lines, removal keeps comments; writing twice, or removing twice, gives the
  same text as doing it once, for files whose lines do not end in a carriage
  return).
- `report`, `config_report`, `sync`: the configuration reports (`.env`
  against the database, passwords hidden unless asked for) and the plans
  that bring the database in line with the `.env` file.
- `backup_plan`: the steps of a host backup as a machine that is told what
  each step found and answers with the next action.
- `crypto`: AES-256-GCM sealing of secrets in base64 text; decrypting what was
  encrypted gives the secret back.
- `discovery`, `agent`: finding agents on the tailnet and the local network,
  ordered by address with one entry per address, and the agent's answers.
- `commands`, `migrations`, `settings`, `node_setup`, `maintenance`,
  `portainer`: what each command-line command does, as plain values.
- `schema`, `schema_text`, `crud`, `schema_migrations`, `db`, `generated`:
  table schemas, their differences as SQL, the record operations' text, the
  steps that bring the database schema up to date, and record insertion.

Calls into outside crates (aes-gcm, base64, rusqlite, uuid, chrono and a few
std functions) go through small trusted wrappers whose contracts say what the
crates' sources and documentation promise.

`app/` is the command-line program around the library: argument parsing,
files, the database, the network and the terminal. `tests/` exercises the
library on concrete values.
