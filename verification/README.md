# rview

A software rasterizer that renders 3D models (`.obj`, `.gltf`/`.glb`, `.stl`)
as ASCII art in the terminal.

- `src/` is the verified library:
  - `framebuffer`: the character framebuffer with its depth test, the depth
    keys that order float depths as integers, and the text of a frame;
  - `mesh`: choosing a loader by extension and gathering the vertices and
    triangles of OBJ models and glTF primitives into one mesh;
  - `raster`: the pixel span of a triangle's bounding box;
  - `controls`: the decisions of the render loop for each frame's input.
- `app/` is the program: argument parsing, file loading, camera and
  projection math (floating point), the rasterizer's edge functions, terminal
  output and the event loop.
- `tests/` exercises the library.
