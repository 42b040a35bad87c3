//! A typed code graph: nodes are code entities (files, functions, classes,
//! HTTP endpoints, data models, pages, requests, instances, imports, tests),
//! edges are relations between them (containment, calls, endpoint-handler
//! binding, inheritance, mixin inclusion, data-model usage).
//!
//! The crate offers two interchangeable storage backends (a linear-scan one
//! and an indexed one), the linking passes that turn file-local extraction
//! records into a globally consistent graph, and a round-trip-safe codec.

pub mod codec;
pub mod indexed;
pub mod laws;
pub mod linear;
pub mod linker;
pub mod model;
pub mod queries;
pub mod service;
pub mod swift;
pub mod text;
