//! Core of an agent tooling and protocol bridge: Content-Length framing,
//! Server-Sent-Events decoding, the DAP, LSP and BRP session logic, and the
//! tool-execution rules, each stated and proved with Verus.

pub mod text;
pub mod json;
pub mod framing;
pub mod encoding;
pub mod dap;
pub mod dap_ops;
pub mod dap_flows;
pub mod edit;
pub mod tools;
pub mod lsp;
pub mod brp;
pub mod llm;
pub mod prompts;
pub mod tool_args;
pub mod scene;
pub mod dap_requests;
