# track_rs

A terminal pattern tracker. `src/` is the verified library: the pattern
grid (`tracker`), the editor state and its operations (`state`), the key
bindings (`bindings`), the playback and redraw timing (`playback`), the
text of the screen (`ui`) and the interleaving of audio frames (`audio`).
`app/` is the program around it: terminal input and drawing with
crossterm and ratatui, and sound with cpal and fundsp.
