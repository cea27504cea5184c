# road_intersection

A traffic simulation of a crossing of two six-lane roads, written in Verus.

- `src/` is the verified library: the geometry of lanes, spawn points and turning
  lines; the planning of each vehicle's timed path around the vehicles already on the
  road; the statistics of the simulation; a block-grid variant of the simulation; the
  keyboard state machine and the main window's key handling; and a reservation grid that grants vehicles passage through
  the intersection cell by cell. Random draws come from `rand` through one trusted
  function (`random::random_below`).
- `app/` is the SDL2 program around it: the window, the event loop, the drawing, and the
  statistics that depend on the clock or on floating point.
- `tests/` runs the library on concrete scenarios.
