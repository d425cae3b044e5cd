//! shirabe: headless browser automation.
//!
//! The library holds the decisions of a browser-automation stack: which
//! browser backend to drive and where its executable is ([`backend`],
//! [`resolution`]), which native libraries a product must ship ([`bundle`]),
//! where a vendor engine library lives and how its status codes read
//! ([`ffi`]), and how MCP tool calls become debug-server requests ([`mcp`]).
//! Reading the environment, probing the file system, spawning processes and
//! talking HTTP are left to the caller.
pub mod backend;
pub mod bundle;
pub mod ffi;
pub mod mcp;
pub mod platform;
pub mod resolution;
pub mod resolver;
pub mod text;

pub use backend::Backend;
pub use bundle::{
    collect_runtime_deps, render as render_bundle_report, BundleReport, BundleSpec, Dep, NativeLib,
};
pub use platform::Platform;
