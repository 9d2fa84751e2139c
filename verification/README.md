# deimos

A terminal music player's library, verified with Verus.

- `src/` is the verified library: the music library and its save/load
  round trip, the play queue and player state, the artist/album and track
  lists, search, the key-to-command dispatcher, configuration, and `mimi`,
  the format-string language used to style song text.
- `tests/` runs the library on concrete values.
- `app/` is the program around it: terminal drawing and input, reading
  tags and configuration files, and following the playing track.
