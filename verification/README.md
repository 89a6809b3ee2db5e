# sophia_engine

The verified core of the Sophia session engine: the rules that decide which
geometry and pixels reach the screen, written in Verus and proved against
their contracts.

One rule drives the design: new geometry is never presented unless its
matching pixels are ready. Surface transactions commit all together or not at
all, a failed or missing window-manager response leaves the last committed
layout in place, a frame is scheduled on an output only with damage and no
frame in flight, and a layout epoch holds the frame until every explicitly
synchronised surface has drawn.

## Layout

- `src/` is the library. Each module states its data as plain values
  (`Seq`, `Set`, `Map`, integers) and each public function's contract over
  them:
  - `protocol`, `engine`, `frame_plan`, `scene`, `session`: surfaces, layers,
    atomic transaction commits, frame plans and session ticks;
  - `frame`, `presentation`, `page_flip`, `output`: frame clocks, layout
    epochs, per-output presentation, page-flip gating, output registries,
    the extended desktop and the VRR policy;
  - `live_layout`, `live_session`, `wm`: the window-manager proposals of a
    live session, the input-proof decisions of its loop and the WM IPC checks;
  - `wayland_session`, `compat`: the resize and surface decisions of a
    Wayland client session, and the capture step of the compatibility
    provider;
  - `input`, `input_proof`: physical input intake, coalescing and the
    bookkeeping of an input-latency proof;
  - `chrome`, `notification`, `text`: sanitised compositor chrome and
    notifications;
  - `args`, `session_config`, `wayland_config`: command-line options;
  - `x11`, `probe`, `evidence`, `cpu_scene`: X11 request encoders, probe and
    evidence report parsing, and CPU buffer bookkeeping;
  - `laws`: proof functions for the properties that span several calls.
- `tests/` runs the library on concrete values.
- `app/` is the command-line program around the library: socket and pipe
  I/O, the environment, and printing.
