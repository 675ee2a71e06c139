# Mira

A desktop camera window: the camera picture, cut to a shape (circle, ellipse, rectangle,
rounded rectangle or heart), shown in a transparent always-on-top window that can be
dragged, scaled and rotated.

- `src/` is the verified library: the context menu, the camera device state and retry
  policy, the frame-buffer pool and texture cache bookkeeping, frame conversion, shape
  cycling, key/menu/wheel commands, configuration rules and paths, log rotation, the
  memory report parser, the tray menu actions and icon, and the menu font bitmap.
- `app/` is the program around it: window, GPU rendering, camera hardware, files, logging
  setup and the floating-point geometry (masks, layout, rotation, monitoring).
- `tests/` exercises the library.
