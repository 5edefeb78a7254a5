# bios_release

A verified library behind a desktop tool that publishes BIOS images. From a
project's `History.txt` it takes the latest release section, reads the
project name, version, revision and image file name from it, derives the
folders and file names of the release on the server and in production,
computes the image's 16-bit checksum line, and composes the release mail and
its `HTML Format` clipboard document.

Layout:

- `src/` — the library, verified with Verus:
  - `text.rs`: lines, trimming, replacing and searching on character sequences;
  - `numfmt.rs`: decimal and hexadecimal rendering and padding;
  - `section.rs`: the latest section of a history text, plain and HTML;
  - `pattern.rs`: regular expressions through the `regex` crate;
  - `clock.rs`: today's local date through `chrono`;
  - `history.rs`: `Strr`, the names and paths of a release;
  - `address.rs`: `GetAddress`, the QT leaders' addresses;
  - `checksum.rs`, `clipboard.rs`: the checksum line and clipboard document;
  - `commands.rs`: what each desktop command decides, given what was read;
  - `laws.rs`: properties of the library as a whole.
- `tests/` — tests on concrete values.
- `app/` — the Tauri desktop program: file system, zip, clipboard and
  Outlook calls around the library.
