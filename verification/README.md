# dsh-tui

A terminal client for the deepseek-harness gateway. The library in `src/` holds everything the
client decides: what it makes of the gateway's frames, what a key or a click does, which requests
follow, and what stands where on the screen. Each function states in its contract what it
returns or changes, and Verus proves it. `app/` is the program around it: the terminal, the
network, files and processes.

## Layout

| Module | What it holds |
| --- | --- |
| `store` | sessions: their events, the nodes of the chat, projections, queues, metrics |
| `render` | markdown, highlighting, wrapping, the rows of the chat, the ledger of a session |
| `app` | the application: keys, mouse, overlays, answers, requests and their outcomes, the screen |
| `app::light` | the worker: one task, one session, plain text |
| `theme` | themes, the configuration, key bindings, the terminal's background |
| `i18n` | locales and texts |
| `gateway`, `client`, `requests` | the gateway's process, the protocol, the payloads |
| `wire`, `json`, `text`, `table`, `seqs`, `key` | values that the others are made of |

A type that the contracts speak of has a view: `SessionStore` stands for a map of sessions,
`App` for an `AppView`, a text for its characters. What an event does is a function from view to
view, and the executable function is proved to follow it. Properties that span several functions
are public proof functions named `law_…`; each says in its doc comment what it states.

What outside crates compute (markdown, grammars, column widths, TOML, base64, images, layouts)
goes through a few trusted functions. Each names the outside function and says what is claimed
of it; where a result is too long to state it has a name, and the contracts above speak of that
name.

Times are carried as the bit patterns of floating-point seconds; only `app/` computes with them.
