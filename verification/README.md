# herdr-mirror

A local pane that shows a remote herdr pane, live, over ssh or `docker exec`. It
watches read-only, takes control when someone types, and gives control back.

`src/` is the library, verified with Verus. It decides; it touches nothing
outside.

- `args`: the command line of a pane.
- `mode`: watching or control, and which of them a pane opens with.
- `mouse`: SGR mouse sequences in the input, and where each of them goes.
- `session`: the command that opens a session, shell quoting, why a session ended.
- `wire`: the JSON lines that a session is sent; `encoding`: the base64 in them.
- `screen`: overlays and text dumps.
- `state`: the pane's state and what follows each event, as a model.
- `pane`: the pane itself, proved to follow the model.
- `laws`: what holds of the pane whatever happens, in whatever order.
- `docker`, `relay`: finding containers, reading docker's answers, relaying a
  local socket into a container.
- `text`, `error`, `config`: what the others share.
- `outside`: what is taken on trust from std, base64 and serde_json.

Every handler of `pane` appends to a list what is to be done outside, in order.
`app/` does it: processes, sockets, signals and the terminal. The screen model,
the guesses of what keystrokes show, and the host's configuration are given to it
through the traits in `app/host.rs`.

Times in the library are nanoseconds since the pane began.
