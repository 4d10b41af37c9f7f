# lyricsmpris

A synchronized-lyrics viewer for MPRIS media players on Linux: it follows
the active player over D-Bus, fetches time-synced lyrics from LRCLIB or
Musixmatch (with a local SQLite cache), and shows them either in a
full-screen terminal view with word-by-word highlighting or line by line on
standard output (`--pipe`).

## Layout

- `src/` is the library, written in Verus and verified: LRC, richsync and
  subtitle parsing; line ordering and active-line tracking; playback position
  estimation; the event state machine; the order of a Musixmatch search (token tiers,
  then identifier and matcher lookups) and of a cache read, as state
  machines whose requests `app/` performs; request URLs; JSON reading of provider answers; cache keys, identifier
  normalization and compression round trips; fuzzy-matching measures (edit
  distance, bigrams, title and artist normalization); and the layout of both
  front ends. Calls into `regex`, `unicode-segmentation`, `textwrap`,
  `urlencoding` and `zstd` sit behind small trusted wrappers whose contracts
  name what the calls return.
- `app/` is the program around it: command line, logging, D-Bus, HTTP,
  SQLite, the terminal, and the floating-point scoring of search candidates.
- `tests/` runs the library on concrete values.

Each public function states its result in `ensures`; the laws that relate
several functions (round trips, read after write, round-robin order,
symmetry of measures, scrolling) are public proof functions next to them.

## Cache behaviour

An entry counts as the same recording when its duration is within 2
seconds of the track's; an entry that does not fit is skipped, not purged. Only entries whose lyrics cannot be read
back are deleted.

The in-memory `LyricsDB` keeps its entries in a `Vec` of key and text pairs
with distinct keys rather than a `HashMap<String, String>`: vstd specifies
`HashMap` only for key types that obey its key model, which `String` does
not, so nothing about such a map's contents could be proved.
