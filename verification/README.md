# denial_compositor

The window-layout policy of the Denial compositor's Wayland frontend, as a
verified library.

The frontend hands mapped windows to a pluggable layout algorithm and applies
the rectangles it returns. This crate holds, as plain values, what that
adapter reads and decides:

- `geometry`: logical rectangles, visibility, the floating rectangle restored
  when a window leaves a managed layout, when a tiled client needs a new size,
  and the distance that picks a drop target.
- `axis`: output transforms and the scrolling axis they imply.
- `properties`: which windows may be tiled.
- `model`: the frontend state (windows, outputs, layout membership, saved
  rectangles, shell workspace table) and the configures it asks for.
- `frontend`: lookups over that state.
- `arrange`: applying a layout's placements and refreshing the shell's
  workspace table.
- `restore`: switching algorithms, floating every window again, detaching and
  remembering insertion anchors.
- `enroll`: rebuilding the layout and reconciling a single window.
- `targets`: arrangement requests, swap and drop targets, overview drops.
- `scroll`: scrolling-gesture context and frames, resize reports.
- `steps`: the steps that follow a layout's answer: swapping leaves,
  floating a detached window, resizing, scrolling, activation.
- `focus`: the keyboard-focus handoff to and from the shell.
- `laws`: properties that span calls.

The layout algorithms themselves run outside the library: its functions take
their placements as arguments and return the insertions and configures that
the frontend must carry out. `app/` converts Smithay geometry, holds the
floating-point steps (touchpad travel, pointer snapping, padding rounding),
and runs each sequence (arranging, switching, rebuilding, reconciling,
drops, swaps, activation, resizing, scrolling, removal, keyboard handoff)
against a layout algorithm, the compositor and the keyboard.
