# youtui

The core of a terminal client of YouTube Music, written in Verus: every
function under `src/` carries a contract that Verus proves, but for one
trusted wrapper, `text::push_char`, whose body calls std's `String::push`
and whose contract is taken as std documents it.

- `src/structures.rs`: song lists, identifiers, download and playback states.
- `src/view.rs`, `src/layout.rs`: table filters, sort commands, column widths
  and the arithmetic of drawing tables and popups.
- `src/ui.rs`: the window's status, contexts, key bindings and message
  queue, and what each message of a component leads to.
- `src/json.rs`, `src/json_text.rs`: a JSON document model, JSON Pointer
  navigation and the compact text of a value.
- `src/parse.rs`, `src/library.rs`: the parsers of Innertube responses
  (library artists and playlists, top search results, lyrics, watch
  playlists).
- `src/auth.rs`: the browser token read from a cookie and the music page, and
  the body and headers of a signed query.
- `src/text.rs`: the character-level helpers the rest is built on.

`app/` is the command line front end: it reads files, fetches the music page
over the network and prints results. `tests/` runs the library on concrete
values.
