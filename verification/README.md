# prometheus_cli

A terminal client for Ollama-style chat backends, with an interactive
session and a single-prompt mode for scripts. The decisions it makes are
verified with Verus; the terminal, files, processes and network stay in a
thin program around them.

## Layout

- `src/` — the verified library.
  - `text` — character-level helpers over `Seq<char>` (trimming, searching,
    splitting, numbers) used by the modules below.
  - `url_validator`, `config` — HTTPS enforcement for backend URLs, the
    saved-URL list and the migration of old configurations.
  - `mode`, `input`, `output`, `non_interactive`, `exit_codes` — the
    single-prompt mode: how the mode is chosen, how the prompt is built and
    checked, how the response is written, which exit code a run ends with.
  - `backend` — the client settings, the decoding of a streamed generation
    and the reading of model lists.
  - `commands`, `session`, `error`, `markdown` — the interactive session:
    slash commands, what is shown, error messages, message formatting.
  - `update`, `ollama_service` — the self-update and the wait for a local
    Ollama service, as state machines whose commands are run outside.
- `tests/` — tests of the library on concrete values.
- `app/` — the `prometheus-cli` program: arguments, configuration file,
  standard streams, HTTP requests, child processes and signals.

Contracts are stated over the views of the values (`Seq<char>` for
strings); properties that relate several functions are public proof
functions whose names start with `law_`.
