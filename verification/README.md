# vandelay

Moves mail, calendars, contacts and filter scripts between accounts, by way of an
archive. The library decides and computes, and is verified with Verus. What it has
from other crates comes through small functions whose contracts are trusted, not
proved: each says what it claims of the call that it makes. The layer under `app/`
reads and writes: the archive's database, HTTP, sockets, files and the clock.

- `src/sync/export` decides what of an archive goes to a JMAP account, and keeps
  track of what could not be sent (`quarantine`).
- `src/sync/import_exchange_graph`, `src/sync/import_managesieve` decide what of a
  source goes into the archive.
- `src/exchange_graph`, `src/exchange_ews`, `src/exchange` read what Microsoft's
  services answer: tokens, events, addresses, time zones.
- `src/dav`, `src/imap`, `src/jmap` decide what follows from each reply of a server.
- `src/inspect` writes what an archive holds for the user.
- `src/json`, `src/text`, `src/web`, `src/address`, `src/types`, `src/error` are what
  the rest is built from.

A function that would send, wait and send again is a step from a state and an event
to the next state and an action; its contract says which. Public proof functions
state what holds of several functions together.
