//! Control plane of a LAN-scale distributed inference cluster.
//!
//! The host discovers peer machines, gates their participation behind an
//! approval workflow with role-based memory caps, estimates whether a model
//! file fits across the aggregated memory pool, supervises the two external
//! inference binaries, and routes OpenAI-shaped traffic to the active
//! backend.  Every decision the control plane makes is implemented here as a
//! verified function over plain values; process, network and file handling
//! live in the surrounding application.

pub mod bus;
pub mod events;
pub mod memory;
pub mod nums;
pub mod ollama;
pub mod orchestrator;
pub mod planner;
pub mod registry;
pub mod router;
pub mod supervisor;
pub mod text;

pub use text::u64_to_string;
