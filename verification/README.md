# tenet

Store-and-forward messaging between peers, verified with Verus. The library holds the rules of
the relay, of the peer's local store, of the web client and of the simulator that exercises them;
every function states in its contract what it returns or changes, and Verus proves it.

## Layout

- `src/relay/` keeps inboxes, quotas, rate windows and the blob store: what is accepted, what is
  dropped, what makes room for it, and what a fetch hands out. `laws.rs` states what holds of each
  request, `history.rs` what holds over any number of them.
- `src/simulation/` draws scenarios (friends, groups, who is online when, who writes what), moves
  messages between clients step by step or event by event, and counts what happened.
- `src/storage/` holds the rows of the database, the queries that list them, the migration of
  older files and the places where attachments lie.
- `src/web_client/` decides what the web client answers, keeps and sends.
- `src/codec.rs` is where hashing, hexadecimal, base64, encryption, JSON and QR pictures come from
  other crates; `src/simulation/random.rs` is where chance comes from. What these functions state
  is taken on trust; everything else is proved.
- `src/keyed.rs`, `src/sorting.rs`, `src/sums.rs` and `src/text.rs` are tools for the rest.
- `tests/` runs the library on concrete values.
- `app/` is ordinary Rust around the library: the HTTP and WebSocket servers, the SQLite database,
  the settings of a simulation, and all draws from distributions over floating-point numbers.

Times are integers: nanoseconds on the clocks of the relay and the simulator, seconds since 1970 in
envelopes and rows.
