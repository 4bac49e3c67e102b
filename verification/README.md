# procreate_render

The decision-making part of a GPU compositor that renders the layers of a
Procreate document, verified with Verus.

- `src/dimensions.rs`: row sizes of an RGBA8 image buffer, padded to the
  alignment that buffer-texture copies need.
- `src/vertices.rs`: the quad that each layer is drawn on, mirroring and
  quarter turns of the layer on it, the vertex buffer layout, and the laws
  that these moves obey (they only ever show the layer under one of the
  eight symmetries of the square).
- `src/layers.rs`: flattening the layer tree into the bottom-first list of
  visible layers, with the clipping mask of each clipped layer.
- `src/render.rs`: the compositor state (target size, quad) and the
  clipping mask of each render pass.
- `app/`: the wgpu side: devices, textures, the pipeline and the passes,
  driven by the library.
