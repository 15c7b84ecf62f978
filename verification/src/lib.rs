//! Verified core of the Vanguard engine: the scene graph, perception labels,
//! voxel streaming, the GPU pass wiring and frame bookkeeping of the renderer,
//! screenshot row layout, and the input state machine of the main loop.

pub mod scene_node;
pub mod perception;
pub mod world_partitioning;
pub mod render_graph;
pub mod screenshot;
pub mod frame;
pub mod input;
pub mod texture;
pub mod task_graph;
