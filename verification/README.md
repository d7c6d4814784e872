# ruffle_seer

Memory-residency rules for a Flash player: which GPU resources stay alive, which
are evicted, and what a host is told about them.

- `src/` is the library. Verus proves the contract of every function in it, but for
  those that only call an outside crate.
  - `buffer_pool`, `slots`, `texture_pool`: pools of textures, how they are swept,
    and the census by which a host follows them. `texture_pool_laws` states what
    holds over several calls.
  - `character`, `graphic`: bitmaps and shapes whose GPU side is made on demand and
    let go when it is idle.
  - `seer`, `core_seer`, `host_slot`, `frame_counter`: the hosts of renderer and
    player, their policies and reports.
  - `security`: the native methods of `flash.system.Security`.
  - `fnv_map`, `texture_format`: the calls into `fnv` and `wgpu`, and what is
    believed of them. The call into `url` stands in `security`.
- `app/` is the player's side: process-wide slots, the clock, `wgpu` textures and
  garbage-collected cells.
- `tests/` runs the library on concrete values.
