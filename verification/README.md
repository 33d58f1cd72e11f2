# cc-proxy

A proxy that lets a client of the Messages API use any OpenAI-compatible
upstream. Requests are translated into the Chat Completions API or the
Responses API, whichever the upstream has, and answers are translated back,
complete or as a stream.

- `src/` is the library. All of it is verified with Verus: translation,
  streaming state machines, tool names and ids, repair of almost-JSON, event
  parsing, detection of the upstream's API, port diagnosis.
- `tests/` holds its tests.
- `app/` is the program around it: command line, HTTP server and client,
  settings file, processes and printing.

## Commands

| Command                 | What it does                              |
|-------------------------|-------------------------------------------|
| `cc-proxy start`        | runs the proxy                            |
| `cc-proxy start -d`     | runs it in the background                 |
| `cc-proxy stop`         | ends the one in the background            |
| `cc-proxy status`       | shows settings and process                |
| `cc-proxy doctor`       | looks at settings, process and port       |
| `cc-proxy doctor --fix` | frees a port that Windows has reserved    |

## Settings

`~/.cc-proxy/config.json`, or the environment:

| Variable            | Default                     | Meaning                        |
|---------------------|-----------------------------|--------------------------------|
| `OPENAI_API_KEY`    | (required)                  | key for the upstream           |
| `OPENAI_BASE_URL`   | `https://api.openai.com/v1` | address of the upstream        |
| `BIG_MODEL`         | `gpt-4o`                    | model for `*opus*`             |
| `MIDDLE_MODEL`      | `BIG_MODEL`                 | model for `*sonnet*`           |
| `SMALL_MODEL`       | `gpt-4o-mini`               | model for `*haiku*`            |
| `BIG_REASONING`     | `none`                      | reasoning effort for `*opus*`  |
| `MIDDLE_REASONING`  | `none`                      | the same for `*sonnet*`        |
| `SMALL_REASONING`   | `none`                      | the same for `*haiku*`         |
| `PORT`              | `8082`                      | port of the proxy              |
| `ANTHROPIC_API_KEY` | (none)                      | key that clients must present  |

## What is trusted

The library calls `serde_json` (reading and writing JSON text, numbers),
`uuid` (fresh ids) and a few functions of std (`String::push`, `push_str`,
`==` on texts, `to_lowercase`, `from_utf8_lossy`). Their contracts stand in
`src/json.rs`, `src/util/random.rs`, `src/text.rs` and `src/client/sse.rs`;
everything else is proved.
