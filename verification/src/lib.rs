//! A verified static/server-side web-site build pipeline: source-tree
//! analysis, a content-aware cache store, render-target generation,
//! the bundler exchange, bundler-output analysis, route
//! reconciliation into a persisted manifest, and final page assembly.

pub mod checker;
pub mod paths;
pub mod error;
pub mod kv;
pub mod sys;
pub mod rand;
pub mod cache_dir;
pub mod src_analyzer;
pub mod dist_analyzer;
pub mod traits;
pub mod render;
pub mod hydrator;
pub mod html;
pub mod targets;
pub mod json;
pub mod manifest;
pub mod bundler;
pub mod render_exec;
pub mod html_renderer;
pub mod head_renderer;
pub mod pages_generator;
pub mod swc_compiler;
pub mod server;
pub mod client_builder;
pub mod server_builder;
pub mod creator;
pub mod analyzer;
pub mod page_renderer;
