# wayland_transfers

What a Wayland desktop client decides about its clipboard and about DMA-BUF textures, verified
with Verus.

The library performs no I/O. It takes what happened as a plain value (a descriptor that could be
made nonblocking, a token that the event loop gave out, bytes that were received, an image that
was created) and returns what is to be done next.

- `clipboard`: the clipboard and the primary selection, over everything below.
- `sources`, `store`: the clipboard sources of the program and the transfers asked of them, and
  their mathematical model.
- `transfers`: the steps of a transfer, from the request to the last byte.
- `offer`: what other programs offer, and the steps in which it is read.
- `item`, `mime`, `ids`, `text`, `png`: what is exchanged, and under which names.
- `external_texture`, `dmabuf`, `import`, `retirement`: which DMA-BUF textures can be copied, the
  steps in which Vulkan takes one over, and the bound on copies under way.
- `laws`, `source_laws`, `read_laws`, `clipboard_laws`, `dmabuf_laws`: what holds of all of it.

`app/` runs the steps on an event loop, a Wayland connection and a GPU.
