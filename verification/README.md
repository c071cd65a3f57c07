# rippa

A web front end for ripping discs with MakeMKV. It drives the `makemkvcon`
GUI server over its pipe protocol, loads the titles of the disc in the drive
and rips the titles and tracks selected on a web page.

## Layout

- `src/` is the library, verified with Verus:
  - `command`: the protocol's commands, the message header and the encoding
    of outgoing messages;
  - `drive`: the parser for drive updates (names, records, timestamps);
  - `language_data`: the compressed interface-language table;
  - `title`: titles, tracks and chapters as the server announces them;
  - `session`: what a session learns from each server message, and the
    arguments and replies of each call;
  - `web`: how times are shown, how a selection form is read, which items a
    rip selects, and the state machine of the task that owns the session;
  - `text`, `util`, `error`: text and integer helpers and the error types.
- `app/` is the program around it: the `makemkvcon` process and its pipes,
  the background task, the axum routes and the askama pages.
- `tests/` runs the library on concrete values.
