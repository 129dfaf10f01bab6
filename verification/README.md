# agentgif

Command-line client for [AgentGIF](https://agentgif.com): upload, manage and
share terminal GIFs.

The crate is split in two:

- `src/` is a library verified with Verus. It holds the client's decisions:
  percent-encoding of query components (`urlenc`), the request each API call
  sends and how each reply is read (`client`), stored credentials, their
  location and the text of their file (`config`), the file names taken from
  paths (`paths`), ordered option sets (`params`), the rules of the
  commands — option building, tape parsing, the login and generation polling
  flows, table cells (`cli`) — and what the commands print from the replies
  they read: search results, a GIF's details, a job's status, short
  confirmations (`report`). JSON is read and written by `serde_json` through
  a few trusted functions in `json`.
- `app/` is the program: argument parsing with `clap`, HTTP with `reqwest`,
  reading and writing the credentials file, running `git` and `vhs`, and
  printing. The counts the server sends are read and printed as
  floating-point numbers there.

Laws proved in `src/` include: decoding an encoded component gives back its
bytes, so two texts never share an encoding, and a text is left unchanged
exactly when all its bytes are unreserved; encoded components never hold `&`, so a badge query splits back into
exactly its parameters; a stored value is read back under its name; a logout
leaves no login behind; a login polls at most 60 times; the credentials file is
`<config dir>/agentgif/config.json`.
