use vstd::prelude::*;

use crate::project::Project;
use crate::response::Response;

verus! {

/// What the interface is doing.
#[derive(Debug, Clone, Copy, PartialEq, Eq, Structural)]
pub enum AppMode {
    Normal,
    ViewingResponse,
    CreatingProject,
    /// First step of a new request: its name.
    CreatingRequest,
    /// Second step of a new request: its method.
    CreatingRequestMethod,
    /// Third step of a new request: its body kind.
    CreatingRequestBody,
    Help,
}

/// Which list has the focus.
#[derive(Debug, Clone, Copy, PartialEq, Eq, Structural)]
pub enum FocusPane {
    Projects,
    Requests,
}

/// A request being created, step by step.
#[derive(Debug, Clone)]
pub struct PendingRequest {
    pub name: String,
    pub method: String,
    pub body_type: String,
}

/// Everything the interface shows.
pub struct AppState {
    pub mode: AppMode,
    pub focused_pane: FocusPane,
    pub projects: Vec<Project>,
    pub selected_project_index: usize,
    pub requests: Vec<String>,
    pub selected_request_index: usize,
    pub current_response: Option<Response>,
    pub status_message: Option<String>,
    pub input_buffer: String,
    /// The request that the creation steps fill in.
    pub pending_request: Option<PendingRequest>,
    /// The highlighted entry of the method or body kind list.
    pub selection_index: usize,
}

impl AppState {
    /// The state at start: nothing loaded, the project list focused.
    pub fn new() -> (r: AppState)
        ensures
            r.mode == AppMode::Normal,
            r.focused_pane == FocusPane::Projects,
            r.projects@.len() == 0,
            r.selected_project_index == 0,
            r.requests@.len() == 0,
            r.selected_request_index == 0,
            r.current_response is None,
            r.status_message is None,
            r.input_buffer@.len() == 0,
            r.pending_request is None,
            r.selection_index == 0,
    {
        AppState {
            mode: AppMode::Normal,
            focused_pane: FocusPane::Projects,
            projects: Vec::new(),
            selected_project_index: 0,
            requests: Vec::new(),
            selected_request_index: 0,
            current_response: None,
            status_message: None,
            input_buffer: String::new(),
            pending_request: None,
            selection_index: 0,
        }
    }

    /// The selected project, if the index points at one.
    pub fn selected_project(&self) -> (r: Option<&Project>)
        ensures
            self.selected_project_index < self.projects@.len() ==> r == Some(
                &self.projects@[self.selected_project_index as int],
            ),
            self.selected_project_index >= self.projects@.len() ==> r is None,
    {
        if self.selected_project_index < self.projects.len() {
            Some(&self.projects[self.selected_project_index])
        } else {
            None
        }
    }

    /// The id of the selected request, if the index points at one.
    pub fn selected_request_id(&self) -> (r: Option<&str>)
        ensures
            self.selected_request_index < self.requests@.len() ==> (r matches Some(id) && id@
                == self.requests@[self.selected_request_index as int]@),
            self.selected_request_index >= self.requests@.len() ==> r is None,
    {
        if self.selected_request_index < self.requests.len() {
            Some(self.requests[self.selected_request_index].as_str())
        } else {
            None
        }
    }
}

} // verus!
