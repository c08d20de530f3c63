# opencode_gtk

A GTK4/libadwaita desktop client for an OpenCode server, with its core
written in Verus and proved.

## Layout

- `src/` — the verified library:
  - `model.rs`: the records the server sends and receives;
  - `api.rs`: method, address and body of every request to the server;
  - `chat.rs`: the chat pane's messages and "Generating..." indicator, and
    what is shown of a message (texts, tool cards, source, info sidebar);
  - `markdown.rs`: Markdown, parsed by `pulldown_cmark`, written as Pango
    markup whose tags are proved to nest and close;
  - `input.rs`: the message input — model and agent choice, placeholder,
    keys, and what "Send" does;
  - `sessions.rs`: the session list;
  - `window.rs`: the current session, the title bar, the reaction to each
    event of the server's event stream (read with `serde_json`) and to
    each reply to a session request;
  - `server.rs`: the server address from the command line, and the one a
    launched server announces;
  - `text.rs`: white space, trimming, search and decimal numbers.
- `tests/` — tests of the library on concrete values.
- `app/` — the program: command line, HTTP with `reqwest`, the event
  stream, and the GTK widgets, which do what the library decides.
