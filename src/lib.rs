pub mod chunker;
pub mod envelope;
pub mod rewriter;
pub mod session;
pub mod naming;
pub mod forms;
pub mod pipeline;
