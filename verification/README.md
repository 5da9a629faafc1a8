# gander

A tabbed desktop client for goose. Each tab of its window is a chat with the
agent of one profile.

- `src/` is the library: the logic of the client, verified with Verus.
  - `app` — the window: its tabs, pages and drawers, and what each message does
    to them.
  - `tab`, `state`, `config` — a tab's body, the state file, the preferences.
  - `acp` — the connection to an agent: session updates, the session list, and
    the worker from its handshake to its end.
  - `ext` — panels of tool calls, which goose serves as resources.
  - `tool_call`, `json`, `markdown`, `text`, `path` — the values these are made of.
  - `transport` — the handshake with geesed, which runs the agents.
  - `supervisor` — child processes, one for each profile.
  - `webview` — the pages of the tabs, and what they ask of the window.
  - `chat` — the chat page: its messages, its scrolling, its sidebar and footer.
  - `startup` — the panic hook and the build tasks.
- `app/` is what surrounds the library: sockets, processes, files and widgets.
- `tests/` runs the library.

What an outside crate does is stated in the contracts of the functions marked
`external_body`; the doc comment of each names the outside function.
