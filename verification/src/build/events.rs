//! Messages between the desktop UI and the agent bridge.

use vstd::prelude::*;
use crate::build::usage::TokenUsage;

verus! {

/// Commands sent from the UI to the agent bridge.
#[derive(Debug)]
pub enum UiCommand {
    Prompt { text: String, attachments: Vec<AttachmentPayload> },
    /// Soft cancel of the in-flight turn (ACP `session/cancel`).
    Cancel,
    /// Kill the agent subprocess and reconnect, for a tool that a soft
    /// cancel cannot unblock.
    ForceStop,
    /// The ACP permission option that the user picked; `None` cancels.
    PermissionResponse { option_id: Option<String> },
    /// Run `grok login` in the browser, then reconnect the agent.
    Login,
    /// Switch the session model (ACP `session/set_model`).
    SetModel { model_id: String },
    SetMode { mode_id: String },
    Shutdown,
}

/// A file attached to a prompt.
#[derive(Debug, Clone)]
pub struct AttachmentPayload {
    pub name: String,
    pub mime_type: String,
    pub data: Vec<u8>,
}

/// A model the agent offers.
#[derive(Debug, Clone)]
pub struct ModelChoice {
    pub id: String,
    pub name: String,
    pub description: String,
}

pub struct ModelChoiceView {
    pub id: Seq<char>,
    pub name: Seq<char>,
    pub description: Seq<char>,
}

impl View for ModelChoice {
    type V = ModelChoiceView;

    open spec fn view(&self) -> ModelChoiceView {
        ModelChoiceView { id: self.id@, name: self.name@, description: self.description@ }
    }
}

pub open spec fn model_views(v: Seq<ModelChoice>) -> Seq<ModelChoiceView> {
    v.map_values(|m: ModelChoice| m@)
}

/// Events pushed from the agent bridge to the UI.
#[derive(Debug, Clone)]
pub enum AgentEvent {
    Status(String),
    /// A browser login is needed before chatting.
    NeedsLogin { message: String },
    Connected {
        session_id: String,
        cwd: String,
        current_model_id: String,
        current_model_name: String,
        models: Vec<ModelChoice>,
        current_mode_id: String,
        modes: Vec<ModeChoice>,
        restored: bool,
    },
    Disconnected,
    ModelChanged { model_id: String, name: String },
    ModeChanged { mode_id: String },
    AssistantDelta(String),
    ToolStart { id: String, title: String },
    ToolUpdate { id: String, status: String, detail: String },
    PermissionRequest { tool_call_id: String, title: String, options: Vec<PermissionOptionView> },
    TurnDone { stop_reason: String, usage: TokenUsage },
    /// A context-window snapshot.
    ContextUsage { used: u64, size: u64 },
    Error(String),
}

/// A session mode the agent offers.
#[derive(Debug, Clone)]
pub struct ModeChoice {
    pub id: String,
    pub name: String,
    pub description: String,
}

/// A permission option of a tool call.
#[derive(Debug, Clone)]
pub struct PermissionOptionView {
    pub id: String,
    pub name: String,
    pub kind: String,
}

pub struct OptionView {
    pub id: Seq<char>,
    pub name: Seq<char>,
    pub kind: Seq<char>,
}

impl View for PermissionOptionView {
    type V = OptionView;

    open spec fn view(&self) -> OptionView {
        OptionView { id: self.id@, name: self.name@, kind: self.kind@ }
    }
}

pub open spec fn option_views(v: Seq<PermissionOptionView>) -> Seq<OptionView> {
    v.map_values(|o: PermissionOptionView| o@)
}

} // verus!
