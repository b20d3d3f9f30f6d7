# wl-showkeys

Displays key presses on screen, on Wayland compositors that support the
`wlr_layer_shell_v1` protocol.

```
wl-showkeys [-b|-f|-s #RRGGBB[AA]] [-F font] [-t timeout]
    [-a top|left|right|bottom] [-m margin] [-p padding] [-o output]
```

- `src/` is the library, written in Verus. It decides: what the privileged
  device manager and the display say to each other (`message`, `devmgr`), how
  the command line is read (`options`, `color`, `number`), what the compositor's
  events mean (`events`), which keys are shown and for how long (`input`,
  `keys`), where they are drawn and when a buffer may be shown (`frame`), and how
  buffers and their memory are managed (`pool`, `shm`, `files`). Every function
  has a contract that is proved, but for the few that hand a call on to the
  standard library or to another crate: what their contracts say is believed.
  The properties that span functions stand beside them as proof functions.
- `app/` is the program around it: system calls, the Wayland connection, the
  input devices, the keymap and the drawing.
- `tests/` runs the library.

The program is installed setuid root. It forks the device manager, which keeps
root privileges to open input devices, and drops them itself.
