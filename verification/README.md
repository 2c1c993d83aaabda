# scurry

Share one mouse and keyboard across machines. The pointer crosses a screen edge
and lands on the next machine; nothing is installed there, because a small BLE
dongle types and points on its behalf.

The controller captures local input and sends it, raw, to the dongle. The dongle
owns the virtual desktop, decides which bonded machine every report goes to, and
tells the controller where the pointer went.

## The library

`src/` is written in Rust with Verus. Every function states what it does in its
`requires` and `ensures` clauses, and Verus proves it. Laws that relate several
functions are public proof functions whose names start with `law_`.

Pushing an image talks to a dongle through the `Link` trait and reports through
`Watcher`. Their contracts say what an implementation owes: that it keeps a
faithful record of what was asked and told. `Rehearsal` and `Journal` in
`update::flash` are proved to; those of `app/` are ordinary Rust.

| module | what it decides |
|---|---|
| `bytes`, `text` | little-endian numbers, byte runs, characters and lines |
| `proto` | the wire format: headers, pointer and keyboard state, screens, profiles, sequence numbers, updates |
| `layout` | the virtual desktop, and how a pointer moves across it |
| `router` | the dongle's routing: installing and saving a layout, translating input, following motion |
| `config` | layouts as they are written down, to and from the wire |
| `capture` | what becomes of a local input event, keycodes, and the thread that reads the dongle back |
| `transport` | frames out of a byte stream, the cable, the radio, and keeping a slow radio up with a fast pointer |
| `ipc` | the control socket, and routing replies to the requests that wait for them |
| `update`, `provision` | which release is newer, checking downloads, pushing an image, and first flashes |
| `tray`, `ctl` | what the menu, the settings window and the command line show and decide |
| `firmware` | the controller's frames as the dongle takes them, and its mouse reports |

A few calls leave the library: SHA-256 comes from sha2, the tray icon is decoded
by png, and a handful of string functions come from the standard library. Each
stands behind one small function whose doc comment says what is taken on trust.

## Around it

`app/` is ordinary Rust: serial ports, sockets, the radio, the event tap, files,
the network, the tray and the settings window. It performs what the library
decides and hands back what happened. `tests/` exercises the library from
outside.
