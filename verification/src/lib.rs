//! Verified core of the RalphX application layer.
pub mod agents;
pub mod env;
pub mod integration_reference_expansion;
pub mod interactive_process_registry;
pub mod json;
pub mod linear_integration;
pub mod mcp_policy;
pub mod memory;
pub mod notifications;
pub mod path_safety;
pub mod provider_cli;
pub mod team_assignment;
pub mod team_budget;
pub mod team_flows;
pub mod team_lifecycle;
pub mod team_messaging;
pub mod team_overlay;
pub mod team_prompt;
pub mod team_state;
pub mod team_wake;
pub mod text;
