# Open NTRIP Client

A diagnostic client for NTRIP/RTK correction streams. It fetches corrections
from a caster, forwards them to a GNSS receiver on a serial port, reports the
receiver's position back where the caster asks for it, and shows and logs what
happens.

## Layout

- `src/` is the decision library, verified with Verus. It holds no sockets,
  ports, files, threads or clocks: it is told what happened, and answers with
  the next state and the effects to carry out.
  - `workers/` decides what the caster and serial threads do: the supervisor
    with its reconnect ladder, the life of one connection, position reporting,
    the correction queue, the session on the serial port with its receiver
    set-up and line assembly.
  - `state.rs` is what the window knows; `ui/` is what it says.
  - `settings.rs`, `profiles.rs` and `legacy.rs` are the settings with their
    invariants, the profile list, and the import from the Lefebure client.
  - `logging.rs` decides which file a line or a capture goes to; `logger.rs` is
    the run of the thread that owns those files.
  - `selftest.rs` is the headless run behind `--selftest`.
  - Floating-point values travel through the library as their bit patterns
    (`ieee.rs`); where only their digits are shown, the rendered text does.
- `app/` is the program around it: the window, the threads, the files and the
  serial port. It hands plain values in and carries effects out.
- `tests/` runs the library.

Public functions whose name begins with `law_` are statements about the library
as a whole; their doc comments say in words what is proved.
