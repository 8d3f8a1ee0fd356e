# gfx

The verified core of a Vulkan renderer, written in Verus. The library
holds the decisions the renderer makes around the Vulkan API, each with a
contract that Verus proves:

- `memory`: first-fit suballocation of device memory chunks
  (`free_list`), pools per memory type and tiling (`pool`, `heap`) and per
  buffer binding (`buffer`);
- `descriptor`: descriptor counts, set layouts, pool accounting and the
  checks on descriptor writes;
- `format`, `image`, `render_pass`, `vertex`, `mesh`: formats, image and
  view validation, subpass and framebuffer validation, vertex input
  layouts and mesh assembly;
- `shader`, `spirv`, `pipeline`, `material`: shader reflection,
  specialization constants, and the checks on the shader stages and set
  layouts of a graphics pipeline. Before `spirv-reflect` loads a module,
  `spirv` checks it against what the bundled C parser relies on, as its
  source shows (instruction tiling, operand and string bounds, type
  references, ids, interface variables, descriptor resources), and it
  reads the locations of the entry point's inputs and outputs from the
  code itself. Modules outside what it recognises, such as those with push
  constants or storage buffers, are refused rather than handed to the
  parser;
- `xfer`: the staging allocator and the plan of an image upload, with
  mip levels laid out one after the other;
- `commands`, `queue`, `swapchain`, `frame`, `instance`, `debug`: command
  recording state (render passes, subpasses and pipeline binds), command
  pool flags, queue classes, swapchain parameters, frame pacing and render
  loop start, instance and device setup choices, and debug message text.

`app/` holds the host-side glue: reading shader files, printing debug
messages, and checking preconditions before calling into the library.
`tests/` exercises the library on concrete values.
