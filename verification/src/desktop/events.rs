//! Messages between the desktop UI and the agent bridge.

use vstd::prelude::*;

verus! {

/// Commands sent from the UI to the agent bridge.
#[derive(Debug)]
pub enum UiCommand {
    Prompt(String),
    Cancel,
    /// `true` allows once, `false` denies.
    PermissionResponse { allow: bool },
    /// Run `grok login` in the browser, then reconnect the agent.
    Login,
    /// Switch the session model (ACP `session/set_model`).
    SetModel { model_id: String },
    Shutdown,
}

/// A model the agent offers.
#[derive(Debug, Clone)]
pub struct ModelChoice {
    pub id: String,
    pub name: String,
    pub description: String,
}

/// Events pushed from the agent bridge to the UI.
#[derive(Debug, Clone)]
pub enum AgentEvent {
    Status(String),
    /// A browser login is needed before chatting.
    NeedsLogin { message: String },
    Connected {
        session_id: String,
        cwd: String,
        current_model_id: String,
        current_model_name: String,
        models: Vec<ModelChoice>,
    },
    Disconnected,
    ModelChanged { model_id: String, name: String },
    AssistantDelta(String),
    ToolStart { id: String, title: String },
    ToolUpdate { id: String, status: String, detail: String },
    PermissionRequest { tool_call_id: String, title: String, options: Vec<PermissionOptionView> },
    TurnDone { stop_reason: String },
    Error(String),
}

/// A permission option of a tool call.
#[derive(Debug, Clone)]
pub struct PermissionOptionView {
    pub id: String,
    pub name: String,
    pub kind: String,
}

} // verus!
