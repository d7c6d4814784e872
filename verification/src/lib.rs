//! Memory-residency rules for a Flash player: which GPU resources stay alive,
//! which are evicted, and what a host is told about them.

pub mod buffer_pool;
pub mod character;
pub mod core_seer;
pub mod fnv_map;
pub mod frame_counter;
pub mod graphic;
pub mod host_slot;
pub mod map_sum;
pub mod movie;
pub mod security;
pub mod seer;
pub mod slots;
pub mod texture_format;
pub mod texture_pool;
pub mod texture_pool_laws;
pub mod time;
