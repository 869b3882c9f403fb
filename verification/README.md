# shader_lab

A small playground for WGSL shader experiments on wgpu, split into a verified
library (`src/`, checked with Verus) and the window/GPU program around it
(`app/`).

The library holds the parts that decide things:

- `preprocess`: expands the inclusion directives of shader sources against a
  table of the files read so far (`sources`, `names`), detecting cycles; the
  caller reads each file the expansion asks for.
- `validate`: runs naga's WGSL front end on the expanded source.
- `text`, `paths`: lines, trimming and whitespace as `str` defines them;
  path operations through `std::path`.
- `scene`, `plan`: the scene catalogue and the full-screen passes of each
  scene (noise, horizontal blur, vertical blur, composite for the noise-blur
  scene), with a proof that every pass samples only what earlier passes drew.
- `targets`: offscreen render targets by name and their texture size.
- `controls`: keys, mouse and frame counter: quitting, stepping through
  scenes with the arrow keys, searching scenes by name (`/`, type, Enter,
  Esc), toggling the split comparison with `C`.

`app/` creates the window with winit, drives wgpu, reads shader files, watches
the shader directory for changes and does the floating-point geometry.
