# Pixgine

The verified core of Pixgine, a 2D pixel-art game engine with a scene editor,
written in Verus.

- `src/` is the library. Every function in it carries a contract that Verus
  proves: the integer pixel scale, texture import settings and spritesheet
  slicing, the asset registry and hot-reload decisions, keyboard and mouse
  state, animation frame stepping, tile layers, undo/redo history, the recent
  files list, the entity hierarchy and the order of the entity list, the
  order in which parent transforms reach children, keyboard commands, and
  how scene files and undo snapshots record entities and their parents.
  Public proof functions state the laws that hold across calls (for
  instance that saving a world and loading it back restores its hierarchy,
  that restoring an undo snapshot gives back the parent links it recorded,
  or that an undo followed by a redo leaves both history stacks as they
  were).
- Three outside calls are trusted rather than proved: comparing paths with
  `std::path::Path`, decoding an image to RGBA pixels with `image`, and
  resizing a thumbnail with `image`.
- `tests/` runs the library on concrete values.
- `app/` is the program around the library: the game runtime (window
  events, the ECS world and its floating-point systems, JSON scene files,
  file and script watching) and, started with `--editor`, the editor's
  window on an editor session. Nothing is drawn: the GPU renderer, the
  editor's egui panels, physics, audio and Lua scripting are left out, since
  those crates bring several hundred more packages into the build and need
  a GPU and system libraries to run.
