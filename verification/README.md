# BrightnessCtrl

A small Windows panel with one brightness slider per physical monitor. Alt+B
shows and hides it. `--install` registers it to run at logon, `--uninstall`
takes it off again.

- `src/` is the library, verified with Verus: all that the panel decides or
  computes.
  - `arith`: machine-integer conversions over mathematical integers
  - `geometry`: layout, thumb and pointer arithmetic, hit tests
  - `text`: UTF-16, registry strings, decimal numbers
  - `monitor`: the panel's state, and how probed displays become monitors
  - `paint`: what is painted, as a list of drawing operations
  - `window`: from an event to the next state, the actions and the answer
  - `checks`: whether an event's positions can be computed in 32 bits
  - `worker`: coalescing of queued brightness values
  - `startup`: the command line, and registration step by step
  - `laws`: what holds over any course of events
- `tests/` runs the library on concrete values.
- `app/` is the Windows program around it: it reads the window and the monitors,
  hands the library events, and carries out the actions it replies with.
