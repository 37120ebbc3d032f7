# zen-render-mesh

The decision-making core of a GPU-driven meshlet renderer, written in Verus with its behaviour
stated as contracts and proved.

`src/` is the verified library:

- `config`, `capabilities`, `driver`: renderer configuration, backend resolution against adapter
  capabilities and driver deny rules, and the device request.
- `asset`: the `.zenmesh` cache format (encoding, decoding with every check in order, the
  round-trip and truncation laws), structural asset validation, stream assembly, and the greedy
  meshlet partition.
- `dispatch`, `gpu_types`, `frame`: launch shapes within device limits, the prefix scan the GPU
  runs, GPU record layout, buffer-size limits and frame-graph decisions.
- `bindless`: generation-checked texture and sampler slot tables and the bind-group epochs.
- `readback`, `stats`: the three-slot counter readback ring, timing association by frame
  identity, and per-frame statistics.
- `renderer`, `requests`: device and scene checks, material and instance mapping, prepared-frame
  identity, render modes, and one-shot capture requests.
- `schedule`, `targets`: the order of a frame's GPU passes on both render paths, and the checks
  on the presented surface and the colour and depth targets.

`app/` holds what the library leaves to the host: wgpu adapter and device conversions,
reportable errors, and the floating-point geometry of asset building (normals, LODs, clustering
through meshoptimizer, bounds). It also computes the culling-bound findings that asset validation
takes (whether spheres enclose their vertices and cones cover their faces), and composes full
validation, encoding and decoding from the library's functions and those findings.
