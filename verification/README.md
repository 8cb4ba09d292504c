# chunk_encoder

Plans a chunked two-pass AV1 encode of one video: the video is cut into its
scenes, each scene is split out as raw frames, encoded in two passes, and the
encoded scenes are joined again with the source's frame timing.

- `src/` is the verified library: the project model (`project`), the batch
  scripts that each job writes and runs (`commands`), the text substitution
  they are built with (`text`), the dispatcher's queue and loop decisions
  (`dispatcher`), and the work loop's decisions (`logic`).
- `app/` runs it: reading and writing the project file, reading the scene
  list, running the scripts in child processes on a dispatcher thread, and
  the Qt window.
- `tests/` exercises the library on concrete projects.
