# rust_gravity_3d

A small 3D gravity simulation: two bodies orbit each other above a floor grid
that sags under their pull; the user flies the camera, pauses with K, and
places new bodies with the mouse and the arrow keys.

- `src/` is the verified library: the event-loop decisions (`control`,
  `input`, `camera`), the order of the pairwise gravity interactions
  (`physics`), the lattice layout of the floor grid (`grid`) and of the sphere
  meshes (`sphere`), and the bookkeeping of a solar system (`galaxy`).
- `app/` is the program around it: the window, OpenGL drawing, and all
  floating-point physics and geometry.
- `tests/` exercises the library on concrete values.
