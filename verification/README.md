# Provider failover

A verified library for sampling from one of several AI providers, in a configured order: which
provider a request starts with, what is known of each provider, how a Gemini answer is requested
and read, and how the order is edited.

- `src/` holds the library. Every function states what it gives in `requires` and `ensures`, and
  Verus proves it. What holds over several calls stands in the `*_laws` modules and beside the
  functions it is about, as public proof functions.
- `tests/` runs the library on concrete values, with the outside crates that it calls.
- `app/` connects the library to files, channels, tasks, the terminal and the agent protocol.

| module | what it is about |
| --- | --- |
| `actor`, `actor_laws`, `cancellation` | requests in flight, cooldowns, the start of a walk along the chain |
| `sampler_config`, `presets`, `providers` | provider settings, the catalogue, the failover chain |
| `copilot_headers` | a request id of its own for each request |
| `conversation`, `gemini_build` | a conversation as a Gemini request |
| `sampling`, `gemini`, `gemini_laws` | a Gemini answer as sampling events |
| `providers_modal`, `providers_keys`, `providers_panel`, `modal_laws` | the `/providers` panel |
| `toml_doc`, `providers_io`, `providers_io_laws` | changes to `config.toml` |
| `slash_command`, `providers_ext` | the command, and reloading a running session |
| `json`, `string_map`, `lists`, `text` | values that the others are made of |

Calls into outside crates stand behind small functions marked `external_body`; the doc comment of
each says what is taken on trust.
