//! Verified core of the lmlang program-graph toolkit.

pub mod agent_registry;
pub mod api_error;
pub mod autonomy;
pub mod chat;
pub mod clock;
pub mod conflict;
pub mod edge;
pub mod edit_events;
pub mod edits;
pub mod error;
pub mod executor;
pub mod function;
pub mod graph_store;
pub mod ids;
pub mod lock_api;
pub mod lock_manager;
pub mod module;
pub mod node;
pub mod observability;
pub mod observability_graph;
pub mod ops;
pub mod planner;
pub mod project_agent;
pub mod program_graph;
pub mod propagation;
pub mod runner;
pub mod schema;
pub mod text;
pub mod type_registry;
pub mod types;
pub mod verify_scope;
