# xshim

xshim is a lightweight wrapper for Xorg that makes X sessions as easy to start
as any other. It stands in for startx, xinit, the rootless wrapper of Xorg,
xauth and mcookie.

It is not a display manager, not an implementation of the X11 protocol and not a
bridge between X11 and Wayland.

## Layout

- `src/` is the library. It decides everything: the command line of the server,
  the descriptors that the server is given, the contents of the authority files,
  the environment of the client, what the journal and the service manager are
  sent. Every function there is verified with Verus against its contract, but for
  the calls that are listed below.
- `app/` is the program. It reads the system, hands the library plain values and
  carries out what the library decides.
- `tests/` runs the library on concrete values.

## What the library promises

- The server and its clients get the same secret, and every file that is written
  is read back as it was (`xauthority::setup::law_same_secret`,
  `xauthority::encoding::law_file_round_trip`).
- Descriptors arrive in the child under the numbers that the child was told,
  whichever numbers they had before (`fd::remap::law_apply`).
- The file of a server is set up once: a second attempt fails and leaves it as it
  is, and no lock stays behind (`launcher::authority::law_server_file_once`). A
  lock is held by one at a time (`xauthority::lock::law_lock_excludes`).
- The directory of a session and the authority in it last until the directory is
  removed, and go with it (`launcher::authority::law_session_lasts`).
- Where environments are merged, values of the process take precedence
  (`strategy::law_unix_takes_precedence`).
- A client is told the display and the authority of its server
  (`client::law_client_environment`, `session::law_display_reaches_clients`).
- A server is connected to by the first of its addresses that works, and only
  where none works is it not (`connect::law_first_success`).
- Secrets are overwritten when they go out of scope (`xauthority::cookie`,
  `xauthority::encoding`).
- A message to the journal can hold anything
  (`systemd::journald::law_value_round_trip`). The journal is initialized once
  (`systemd::journald::law_initialized_once`).

## What is taken for granted

These calls leave the library. Their contracts are believed, not proved; the
comment above each says what is claimed of it.

- Of the standard library: `String::from_utf8`, `String::push` and the form that
  `Debug` gives a text (`text`), `u32::from_ne_bytes` (`system`).
- Of rustix: `getrandom`, `uname` and `getpid`, and the type `Errno` (`system`).
  What the system answers is not known; the contracts of the callers say that
  it is that answer which they use.
- Of zeroize: `zeroize` on a byte array (`xauthority::cookie`) and on a byte
  vector (`xauthority::encoding`).
- Of x11rb: `ParsedDisplay::connect_instruction` (`connect`).

What steps on files come to (`files::done`) is a model of the file system; the
laws about files hold as far as the file system follows it.
