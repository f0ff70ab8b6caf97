//! The command that opens the panel for MCP (Model Context Protocol) servers.

use vstd::prelude::*;

verus! {

/// A command as the user typed it.
pub struct ParsedCommand {
    pub name: String,
    pub args: Vec<String>,
}

/// An interactive panel of the user interface.
#[derive(Clone, Copy, PartialEq, Eq, Structural, Debug)]
pub enum ModalType {
    /// The panel in which MCP servers are managed.
    McpManager,
}

/// What a command asks of the user interface.
#[derive(Clone, Copy, PartialEq, Eq, Structural, Debug)]
pub enum CommandResult {
    /// Open an interactive panel.
    OpenModal(ModalType),
}

/// Executes commands.
pub struct CommandExecutor {}

impl CommandExecutor {
    /// Opens the MCP panel, whatever the arguments: all management happens there.
    pub fn cmd_mcp(&self, _cmd: &ParsedCommand) -> (result: CommandResult)
        ensures
            result == CommandResult::OpenModal(ModalType::McpManager),
    {
        CommandResult::OpenModal(ModalType::McpManager)
    }
}

} // verus!
