# wlrix-screenshot

Screenshots for the wlRIX desktop: freezes the screen, pulls out a region that can be adjusted, and
saves it or copies it. The rules of the program are a library written and proved in
[Verus](https://github.com/verus-lang/verus).

## Layout

- `src/` is the verified library.
  - `geometry`, `text`, `path`: rectangles, text and Unix paths, as far as the rest needs them.
  - `select`: the selection rectangle and everything that can be done to it.
  - `shot`: the frozen desktop, cropping it, and encoding a crop as a PNG.
  - `ui`: the overlay's state machine; `ui::paint`: where everything on the overlay is.
  - `wayland`, `grab`: what is known of a capture, how long to wait for it, and what the frozen
    desktop is made of.
  - `config`, `xdg`: the settings, and where they and the pictures are.
  - `save`: what a screenshot is called and where it goes.
  - `cli`, `portal`, `clipboard`: the command line, the portal's request, the clipboard owner.
  - `run`: what becomes of the picture once a part of the desktop has been settled on.
- `tests/` runs the library on concrete values.
- `app/` is the program around it: the Wayland client, drawing, files and processes. It hands plain
  values in and acts on the plain values it gets back.

## What is trusted

Five things are believed rather than proved: the `png` crate's encoder (`shot::encode_rgb8`), the
machine's byte order (`shot::native_u16`), how bytes that are not UTF-8 become text
(`save::from_utf8_lossy`), how a string is quoted in a message (`text::quote`) and that
`String::push` appends. Each states what it claims in its doc comment.
