//! Built-in tool settings of the legacy agent format, which are those of the
//! current one.
pub use crate::kiro::tools::{ToolTarget, AwsTool, ExecuteShellTool, ReadTool, WriteTool};
