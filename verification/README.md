# wgpu-pcd

A point-cloud viewer: it loads the points of a PCD file and draws a small cube
for each of them with wgpu, in a winit window whose camera the keyboard moves.

- `src/` is the verified library (Verus): the adapter report text, the camera
  rig and its key bindings, the window-event and frame-result decisions, the
  surface and depth-texture plans, the vertex buffer layouts, the cube's index
  data, and the listing and numeric ordering of PCD files.
- `app/` is the front end around it: file reading, the GPU and the window, and
  the floating-point matrices.
- `tests/` runs the library on concrete values.
