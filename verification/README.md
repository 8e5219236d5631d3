# flow_lenia_gpu

Host side of a Flow-Lenia simulation on WebGPU.

`src/` is the verified library. It plans everything that can be decided on the
host and states what it plans in contracts:

- how activation fields, kernel banks, weight maps and parameter blocks are
  laid out in device buffers (`activation_buffer`, `kernel_buffers`, `globals`,
  `passes::parameter_map`, `passes::kernel_fft`);
- which buffers exist, which shader each pass runs, what it binds and how many
  workgroups it dispatches (`device`, `passes`);
- the order of a step, the turns of the two activation buffers, profiled runs
  and parameter updates (`pipeline`);
- readbacks, screenshots, frame statistics and the front end's reaction to
  buttons and keys (`readback`, `texture_readback`, `screenshot`,
  `frame_stats`, `canvas`, `app_state`).

`pipeline_laws`, `determinism` and `validity` hold what is true of every step:
passes read only what is already there, nothing is read and written at once, a
step depends on the current state alone, and the device accepts the commands of a
run: its startup, its steps, the draw of a frame and of a screenshot, and the
readback of its activation.

Single-precision numbers are carried as bit patterns; the library never
computes with them. Arrays are `ndarray` arrays, bytes go through `bytemuck`,
PNG files through `image`; each call stands behind a small function with a
stated contract.

`app/` holds the device: it creates the planned buffers, replays the planned
commands with `wgpu`, maps staging buffers, computes the few floating-point
values (twiddle factors, sums, rates), and runs the window and its panel.

`tests/` exercises the library on concrete values.
