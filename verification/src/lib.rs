//! Verified building blocks of the scene compiler.

pub mod text;
pub mod chart_options;
pub mod anchor;
pub mod widow_orphan;
pub mod palette;
pub mod frame_layout;
pub mod node_tree;
pub mod overrides;
pub mod instance;
pub mod advisory;
pub mod font;
pub mod chain_members;
pub mod data_binding;
pub mod property_resolve;
pub mod geometry;
pub mod style;
pub mod dispatch;
pub mod scene_ops;
