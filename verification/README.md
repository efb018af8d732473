# arboard, with a verified core

A cross-platform clipboard library for text and images. The crate in `src/` is the
verified core: every function there carries a contract that Verus proves. It holds the
data model (errors, image data), the byte formats (DIB headers, the `HTML Format`
envelope, `DROPFILES`, little-endian fields), the pixel conversions, and the decisions of
the platform backends: what an X11 selection owner serves and reads back, how a read of a
selection proceeds, when a hand-over to a clipboard manager is finished, how Wayland,
macOS, Windows, Android and the browser report what they found.

Image encoding and decoding is done by the `image` crate, called from `src/codec.rs`.

`app/` is the ordinary Rust around the core: the public `Clipboard` builders, the X11
backend (on `x11rb`) and the Wayland backend (on `wl-clipboard-rs`) that talk to the
display server, the threads that serve requests, and the error type with the standard
error traits.

Layout of `src/`:

- `error.rs`, `image_data.rs`: the error type and image data.
- `pixels.rs`, `le.rs`, `bitmap.rs`, `codec.rs`: pixel layouts, bitmap headers, PNG and BMP.
- `html.rs`, `text.rs`: the Windows HTML envelope, text decoding.
- `x11.rs`, `format_table.rs` (on a `BTreeMap`), `x11_legacy.rs`: the X11 selection owners and
  readers.
- `linux.rs`, `windows.rs`, `apple.rs`, `platforms.rs`, `dummy.rs`, `options.rs`: the rules of
  each platform backend and the options of a "set" operation.
