//! Template resolution and step planning for a project-scaffolding tool:
//! conditions and placeholder substitution over a variable environment,
//! quote-aware command tokenizing, resolving a template's variables one
//! prompt at a time, collecting template definitions, and turning a
//! template's steps into an ordered plan of checks, copies and commands.

pub mod text;
pub mod environment;
pub mod substitution;
pub mod command;
pub mod paths;
pub mod template;
pub mod executor;
pub mod resolver;
pub mod loader;
pub mod config;
