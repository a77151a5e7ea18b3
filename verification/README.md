# lamp

A music player for the terminal, and the proofs of its rules.

`src/` is the library: the state of the player and all that changes it, verified with Verus. It
decides; it does no input or output. A key, a command of another program or the clock goes in, and
a list of effects (load a song, pause, save the playlists, ...) comes out.

- `scan`, `digest`, `tags`, `path`: the library of songs, from the files of a directory
- `song`, `sort`, `text`, `search`: songs, their order, and how they are searched
- `app`: the state; `playlists`, `playback`, `keys`, `remote`, `clock`: what changes it
- `screen`: what is shown
- `laws`: what holds of the player as a whole

`app/` is the program: it reads files, draws the screen, plays the sound, serves the session bus,
and performs the effects in their order. `tests/` runs the library.
