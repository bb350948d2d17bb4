//! Verified core of a quadruped robot controller: turning prompts into safe
//! action plans, normalising and rendering plans, and the decisions of the
//! command line and the HTTP gateway around them.
pub mod cli;
pub mod config;
pub mod driver;
pub mod gateway;
pub mod llm;
pub mod planner;
pub mod service;
pub mod text;
