# easy_imgui_core

The logic of the easy-imgui widgets and helpers, as a library whose
functions carry contracts proved with Verus.

- `src/chooser/`: the file chooser: entries and their listing order
  (`entry`, `sort`), name filters (`filter`), path operations (`paths`), the
  widget state and every decision it takes (`state`), the path bar
  (`pathbar`), directory enumerators and ZIP paths (`dirs`), and the
  directory tree of a ZIP archive (`zipdir`).
- `src/text.rs`: lexicographic order, substring search, and the
  NUL-terminated buffer of the text inputs.
- `src/generation.rs`: callback identifiers tagged with a generation, and
  the callbacks of a frame.
- `src/atlas.rs`: font atlas data, custom rectangles and their pixels, and
  when the atlas is rebuilt.
- `src/texmap.rs`: texture identifiers and the renderer's texture steps.
- `src/keys.rs`: keys, mouse buttons and cursors of the windowing system
  and of the interface.
- `src/glconfig.rs`: choosing the OpenGL configuration of the window.
- `src/ui.rs`: style colors, viewports, number formats and other plain
  values of the interface.
- `src/shader.rs`: splitting a combined shader source (two layouts).
- `src/idler.rs`: when the main loop keeps rendering.

`app/` holds what reads the filesystem and ZIP archives and drives the
chooser state with what it finds. `tests/` exercises the library.
