//! Interactive geometry and coordination engine for a recorded timeline of
//! memory allocations: normalized allocation geometry with spatial hit-tests,
//! a camera transform with zoom-anchored scaling and clamped panning, an
//! axis-tick placement algorithm, and the cross-process command/reply/event
//! protocol that keeps a renderer and a controller cooperating without races.
pub mod allocation;
pub mod cache;
pub mod cli;
pub mod database;
pub mod fixed;
pub mod geometry;
pub mod lining;
pub mod load;
pub mod palette;
pub mod protocol;
pub mod render_data;
pub mod render_loop;
pub mod repl;
pub mod strings;
pub mod ticks;
pub mod ui;
pub mod utils;
pub mod viewer_repl;
