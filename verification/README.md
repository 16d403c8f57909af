# blue_compositor

The decision logic of the Blue Wayland compositor, verified with Verus, and the
compositor around it.

- `src/` is the library. Windows, surfaces, outputs, GPUs and protocol objects are
  plain identifiers there. Its functions take what was read from the real objects,
  update `BlueState`, and return what has to be carried out, in order.
  - `input`: keyboard shortcuts, pointer events, moving and resizing windows.
  - `ipc`: the messages of the desktop shell and the socket that they come over.
  - `protocols`: toplevel lists, monitor settings, screen capture, buffer formats,
    idle inhibition, input-method popups, and monitors that come and go.
  - `render`: monitors and GPUs, modes, the course of a frame, the nested backend.
  - `state`, `output`, `geometry`, `text`, `search`, `maps`, `environment`: what the
    others share.
- `tests/` runs the library on concrete values.
- `app/` owns the real objects: it reads them, asks the library, and carries out the
  answer.

Each module ends with its laws: public proof functions that state what holds of the
module as a whole.
