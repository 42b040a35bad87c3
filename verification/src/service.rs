//! The service-facing value types: the build request, the build summary,
//! and the error carried back to a client. Network plumbing lives outside
//! the library and converts to and from these.

use vstd::prelude::*;

verus! {

/// A request to build a graph for one repository.
#[derive(Debug)]
pub struct ProcessBody {
    pub repo_url: String,
    pub username: Option<String>,
    pub pat: Option<String>,
}

/// The summary a build reports back: a status, a message, and the node and
/// edge counts of the finished graph.
#[derive(Debug)]
pub struct ProcessResponse {
    pub status: String,
    pub message: String,
    pub nodes: usize,
    pub edges: usize,
}

impl ProcessResponse {
    /// A summary with the given status and message for a graph of the
    /// given size.
    pub fn new(status: String, message: String, nodes: usize, edges: usize) -> (r: Self)
        ensures
            r.status@ == status@,
            r.message@ == message@,
            r.nodes == nodes,
            r.edges == edges,
    {
        ProcessResponse { status, message, nodes, edges }
    }
}

/// A build failure surfaced to a client, carrying the underlying message.
#[derive(Debug)]
pub enum AppError {
    Internal(String),
}

impl AppError {
    /// Wraps an underlying failure's message.
    pub fn from_message(message: String) -> (r: Self)
        ensures
            r matches AppError::Internal(m) && m@ == message@,
    {
        AppError::Internal(message)
    }

    /// The underlying failure's message.
    pub fn message(&self) -> (r: &String)
        ensures
            self matches AppError::Internal(m) && r@ == m@,
    {
        match self {
            AppError::Internal(m) => m,
        }
    }
}

} // verus!
