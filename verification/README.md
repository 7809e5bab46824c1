# chimera_ruffle

The deterministic half of a Flash core: everything that decides what a movie
sees and when, with the player itself left outside.

A host steps a machine frame by frame. The machine turns the levels of the
host's buttons into the movie's input events, counts which movie frames are due
against the movie's own rate, moves the one clock there is, and says in which
order the player works. Two runs that are handed the same events are the same
run, and the contracts say so.

| module | |
| --- | --- |
| `exports` | the surface a host calls, loading a movie among it |
| `machine` | one run: what a frame does, in order |
| `pacing` | host frames, movie frames, the clock, the axis, in whole numbers |
| `input` | levels into edges |
| `settings`, `config` | what a run is set up as |
| `renderer`, `picture` | whose OpenGL is drawn on, and the picture it gives back |
| `navigator` | from a URL to a mounted file, and the loads under way |
| `locale` | the date |
| `log`, `digest`, `sha1` | the trace, and the numbers it is known by |
| `native` | the reference run outside of the sandbox |
| `buffer`, `text` | text in fixed buffers, and text at all |

`app/` is the program around it: the reference run, the C surface, and the
player's backends. `tests/` runs the library.

What is taken on trust stands in `settings`, `navigator`, `locale` and `text`,
each item with a comment that says what it claims and of which function.
