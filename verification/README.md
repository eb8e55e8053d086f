# axon_tui

The logic of a terminal client for Matrix rooms served by Axon, written in Verus.

- `src/api/` is the wire side: the values the server sends and how each is read from
  JSON, the requests, the replies, and the live socket with its waits.
- `src/app/` is the client: its state and what changes it. A function that needs the
  server or a file returns what is to be asked for, and another takes the reply over.
- `src/text.rs`, `src/order.rs`, `src/keyed.rs`, `src/json.rs` and `src/ids.rs` are
  what both rest on: texts as sequences of characters, sorting, maps, JSON and ids.
- `app/` holds the readers that `serde_json` is given for those values: they decide
  whether a text is taken and say why not, and the library reads it. It sends the
  requests, reads the socket and the files, decodes and encodes images on worker
  threads, and turns lines into those of the terminal.
- `tests/` runs the library.

Public proof functions whose names begin with `law_` state what holds of the client as a
whole. Functions marked `external_body` and the `assume_specification` items stand for
calls into other crates; their doc comments say what is taken from those.
