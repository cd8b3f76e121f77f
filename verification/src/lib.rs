//! Terminal UI building blocks for an agent transcript: a click-handling
//! wrapper, a collapsible disclosure section, and the "thinking" block logic
//! that turns an agent exchange into renderable sections with per-message
//! collapse state.

pub mod agent_block;
pub mod agent_model;
pub mod buffer;
pub mod collapsible;
pub mod column;
pub mod container;
pub mod element;
pub mod event;
pub mod geometry;
pub mod hoverable;
pub mod style;
pub mod strings;
pub mod text;
pub mod thinking;
