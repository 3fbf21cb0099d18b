use std::sync::Arc;
use vstd::prelude::*;
use vstd::string::*;

use crate::error::{error_text, Error};
use crate::order::{sorted_texts, texts};
use crate::project::Project;
use crate::repository::{Editor, ProjectRepository, RequestRepository};
use crate::request::Request;
use crate::response::Response;
use crate::store::project_names;
use crate::state::{AppMode, AppState, FocusPane, PendingRequest};
use crate::text::{concat3, drop_last_char, push_char};
use crate::usecase::{CreateProjectUseCase, CreateRequestUseCase, EditRequestUseCase, ListProjectsUseCase};

verus! {

/// How many methods a new request can choose from.
pub const METHOD_COUNT: usize = 5;

/// How many body kinds a new request can choose from.
pub const BODY_KIND_COUNT: usize = 2;

/// The method at place `i` of the list a new request chooses from.
pub open spec fn method_at(i: int) -> Option<Seq<char>> {
    if i == 0 {
        Some("GET"@)
    } else if i == 1 {
        Some("POST"@)
    } else if i == 2 {
        Some("PUT"@)
    } else if i == 3 {
        Some("DELETE"@)
    } else if i == 4 {
        Some("PATCH"@)
    } else {
        None
    }
}

/// The body kind at place `i` of the list a new request chooses from.
pub open spec fn body_kind_at(i: int) -> Option<Seq<char>> {
    if i == 0 {
        Some("Empty"@)
    } else if i == 1 {
        Some("JSON"@)
    } else {
        None
    }
}

pub open spec fn str_view(o: Option<&str>) -> Option<Seq<char>> {
    match o {
        Some(s) => Some(s@),
        None => None,
    }
}

/// The method at place `i`.
pub fn method_choice(i: usize) -> (r: Option<&'static str>)
    ensures
        str_view(r) == method_at(i as int),
{
    if i == 0 {
        Some("GET")
    } else if i == 1 {
        Some("POST")
    } else if i == 2 {
        Some("PUT")
    } else if i == 3 {
        Some("DELETE")
    } else if i == 4 {
        Some("PATCH")
    } else {
        None
    }
}

/// The body kind at place `i`.
pub fn body_kind_choice(i: usize) -> (r: Option<&'static str>)
    ensures
        str_view(r) == body_kind_at(i as int),
{
    if i == 0 {
        Some("Empty")
    } else if i == 1 {
        Some("JSON")
    } else {
        None
    }
}

/// The title of the input window shown in mode `m`.
pub open spec fn popup_title_of(m: AppMode) -> Seq<char> {
    match m {
        AppMode::CreatingProject => "Create New Project"@,
        AppMode::CreatingRequest => "Request Name"@,
        AppMode::CreatingRequestMethod => "Select Method"@,
        AppMode::CreatingRequestBody => "Select Body Type"@,
        _ => Seq::empty(),
    }
}

/// The title of the input window shown in mode `m`; empty where none is shown.
pub fn popup_title(m: AppMode) -> (r: &'static str)
    ensures
        r@ == popup_title_of(m),
{
    match m {
        AppMode::CreatingProject => "Create New Project",
        AppMode::CreatingRequest => "Request Name",
        AppMode::CreatingRequestMethod => "Select Method",
        AppMode::CreatingRequestBody => "Select Body Type",
        _ => {
            proof {
                reveal_strlit("");
            }
            ""
        },
    }
}

/// The text of the status line: the last message, or `Ready`.
pub fn status_line(state: &AppState) -> (r: &str)
    ensures
        r@ == match state.status_message {
            Some(m) => m@,
            None => "Ready"@,
        },
{
    match &state.status_message {
        Some(m) => m.as_str(),
        None => "Ready",
    }
}

/// The modes in which keys edit the pending input.
pub open spec fn is_input_mode(m: AppMode) -> bool {
    m == AppMode::CreatingProject || m == AppMode::CreatingRequest || m
        == AppMode::CreatingRequestMethod || m == AppMode::CreatingRequestBody
}

/// `a` and `b` have the same use cases and request repository.
pub open spec fn same_parts<P: ProjectRepository, R: RequestRepository, E: Editor>(
    a: App<P, R, E>,
    b: App<P, R, E>,
) -> bool {
    &&& b.list_projects_usecase == a.list_projects_usecase
    &&& b.create_project_usecase == a.create_project_usecase
    &&& b.create_request_usecase == a.create_request_usecase
    &&& b.edit_request_usecase == a.edit_request_usecase
    &&& b.request_repo == a.request_repo
}

/// `s` with another mode.
pub open spec fn with_mode(s: AppState, m: AppMode) -> AppState {
    AppState { mode: m, ..s }
}

/// `s` with another focus.
pub open spec fn with_focus(s: AppState, f: FocusPane) -> AppState {
    AppState { focused_pane: f, ..s }
}

/// `a` and `b` differ at most in the request list and its selection.
pub open spec fn same_but_requests(a: AppState, b: AppState) -> bool {
    b == (AppState { requests: b.requests, selected_request_index: b.selected_request_index, ..a })
}

/// `i + 1`, wrapping to 0 at `n`.
pub open spec fn next_index(i: int, n: int) -> int {
    (i + 1) % n
}

/// `i - 1`, wrapping from 0 to `n - 1`.
pub open spec fn previous_index(i: int, n: int) -> int {
    if i == 0 {
        n - 1
    } else {
        i - 1
    }
}

/// A loaded request that the caller is to send.
pub struct Execution {
    pub request: Request,
    pub request_id: String,
}

/// A key press.
#[derive(Debug, Clone, Copy, PartialEq, Eq, Structural)]
pub enum Key {
    Enter,
    Esc,
    Backspace,
    Up,
    Down,
    Tab,
    Char(char),
    Other,
}

/// What the caller is to do after a key press that the state alone cannot carry out.
#[derive(Debug, Clone, Copy, PartialEq, Eq, Structural)]
pub enum KeyAction {
    /// Nothing more.
    Nothing,
    /// Leave the program.
    Quit,
    /// Run `on_enter` and send what it hands back.
    Enter,
    /// Hand the terminal to the editor and run `on_edit`.
    Edit,
}

/// The interface's state together with the use cases it drives.
pub struct App<P: ProjectRepository, R: RequestRepository, E: Editor> {
    pub state: AppState,
    pub list_projects_usecase: ListProjectsUseCase<P>,
    pub create_project_usecase: CreateProjectUseCase<P>,
    pub create_request_usecase: CreateRequestUseCase<R>,
    pub edit_request_usecase: EditRequestUseCase<E>,
    pub request_repo: Arc<R>,
}

impl<P: ProjectRepository, R: RequestRepository, E: Editor> App<P, R, E> {
    pub fn new(
        list_projects_usecase: ListProjectsUseCase<P>,
        create_project_usecase: CreateProjectUseCase<P>,
        create_request_usecase: CreateRequestUseCase<R>,
        edit_request_usecase: EditRequestUseCase<E>,
        request_repo: Arc<R>,
    ) -> (r: Self)
        ensures
            r.state.mode == AppMode::Normal,
            r.state.focused_pane == FocusPane::Projects,
            r.state.projects@.len() == 0,
            r.state.requests@.len() == 0,
            r.state.selected_project_index == 0,
            r.state.selected_request_index == 0,
            r.state.current_response is None,
            r.state.status_message is None,
            r.state.pending_request is None,
    {
        App {
            state: AppState::new(),
            list_projects_usecase,
            create_project_usecase,
            create_request_usecase,
            edit_request_usecase,
            request_repo,
        }
    }

    /// Loads the project list and the requests of the first project.
    pub fn init(&mut self) -> (r: Result<(), Error>)
        ensures
            final(self).state.mode == old(self).state.mode,
            final(self).state.focused_pane == old(self).state.focused_pane,
            final(self).state.selected_project_index == old(self).state.selected_project_index,
            final(self).state.status_message == old(self).state.status_message,
            final(self).state.pending_request == old(self).state.pending_request,
            r is Ok ==> sorted_texts(project_names(final(self).state.projects@)),
    {
        self.refresh_projects()
    }

    /// Reloads the project list, then the requests of the selected project.
    pub fn refresh_projects(&mut self) -> (r: Result<(), Error>)
        ensures
            same_parts(*old(self), *final(self)),
            final(self).state.mode == old(self).state.mode,
            final(self).state.focused_pane == old(self).state.focused_pane,
            final(self).state.selected_project_index == old(self).state.selected_project_index,
            final(self).state.status_message == old(self).state.status_message,
            final(self).state.input_buffer == old(self).state.input_buffer,
            final(self).state.pending_request == old(self).state.pending_request,
            final(self).state.selection_index == old(self).state.selection_index,
            final(self).state.current_response == old(self).state.current_response,
            r is Ok ==> sorted_texts(project_names(final(self).state.projects@)),
    {
        let projects = self.list_projects_usecase.list_projects()?;
        self.state.projects = projects;
        if self.state.projects.len() > 0 {
            self.refresh_requests()?;
        }
        Ok(())
    }

    /// Reloads the requests of the selected project; a selection past the new end goes
    /// back to the first request.
    pub fn refresh_requests(&mut self) -> (r: Result<(), Error>)
        ensures
            same_parts(*old(self), *final(self)),
            same_but_requests(old(self).state, final(self).state),
            r is Err || old(self).state.selected_project_index >= old(self).state.projects@.len()
                ==> final(self).state == old(self).state,
            r is Ok && old(self).state.selected_project_index < old(self).state.projects@.len()
                ==> final(self).state.selected_request_index == if old(
                self,
            ).state.selected_request_index < final(self).state.requests@.len() {
                old(self).state.selected_request_index
            } else {
                0
            },
            r is Ok && old(self).state.selected_project_index < old(self).state.projects@.len()
                ==> sorted_texts(texts(final(self).state.requests@)),
            old(self).state.selected_project_index >= old(self).state.projects@.len() ==> r is Ok,
    {
        if self.state.selected_project_index < self.state.projects.len() {
            let requests = self.list_projects_usecase.list_requests(
                &self.state.projects[self.state.selected_project_index],
            )?;
            self.state.requests = requests;
            if self.state.selected_request_index >= self.state.requests.len() {
                self.state.selected_request_index = 0;
            }
        }
        Ok(())
    }

    /// Moves the selection down in the focused list.
    pub fn next(&mut self)
        ensures
            next_post(old(self).state, final(self).state),
    {
        proof {
            let n = self.state.projects@.len() as int;
            let i = self.state.selected_project_index as int;
            if n > 0 {
                vstd::arithmetic::div_mod::lemma_mod_bound(i + 1, n);
            }
        }
        match self.state.focused_pane {
            FocusPane::Projects => self.next_project(),
            FocusPane::Requests => self.next_request(),
        }
    }

    /// Moves the selection up in the focused list.
    pub fn previous(&mut self)
        ensures
            previous_post(old(self).state, final(self).state),
    {
        match self.state.focused_pane {
            FocusPane::Projects => self.previous_project(),
            FocusPane::Requests => self.previous_request(),
        }
    }

    fn next_project(&mut self)
        ensures
            old(self).state.projects@.len() == 0 ==> final(self).state == old(self).state,
            old(self).state.projects@.len() > 0 ==> final(self).state.selected_project_index
                == next_index(
                old(self).state.selected_project_index as int,
                old(self).state.projects@.len() as int,
            ),
            old(self).state.projects@.len() > 0 ==> {
                let moved = AppState {
                    selected_project_index: next_index(
                        old(self).state.selected_project_index as int,
                        old(self).state.projects@.len() as int,
                    ) as usize,
                    ..old(self).state
                };
                same_but_requests(moved, final(self).state)
            },
    {
        if self.state.projects.len() > 0 {
            self.state.selected_project_index = (self.state.selected_project_index % self.state.projects.len()
                + 1) % self.state.projects.len();
            proof {
                let i = old(self).state.selected_project_index as int;
                let n = old(self).state.projects@.len() as int;
                vstd::arithmetic::div_mod::lemma_add_mod_noop_right(1, i, n);
                vstd::arithmetic::div_mod::lemma_mod_bound(i + 1, n);
            }
            let _ = self.refresh_requests();
        }
    }

    fn previous_project(&mut self)
        ensures
            old(self).state.projects@.len() == 0 ==> final(self).state == old(self).state,
            old(self).state.projects@.len() > 0 ==> final(self).state.selected_project_index
                == previous_index(
                old(self).state.selected_project_index as int,
                old(self).state.projects@.len() as int,
            ),
            old(self).state.projects@.len() > 0 ==> {
                let moved = AppState {
                    selected_project_index: previous_index(
                        old(self).state.selected_project_index as int,
                        old(self).state.projects@.len() as int,
                    ) as usize,
                    ..old(self).state
                };
                same_but_requests(moved, final(self).state)
            },
    {
        if self.state.projects.len() > 0 {
            if self.state.selected_project_index == 0 {
                self.state.selected_project_index = self.state.projects.len() - 1;
            } else {
                self.state.selected_project_index = self.state.selected_project_index - 1;
            }
            let _ = self.refresh_requests();
        }
    }

    fn next_request(&mut self)
        ensures
            final(self).state == (if old(self).state.requests@.len() > 0 {
                AppState {
                    selected_request_index: next_index(
                        old(self).state.selected_request_index as int,
                        old(self).state.requests@.len() as int,
                    ) as usize,
                    ..old(self).state
                }
            } else {
                old(self).state
            }),
    {
        if self.state.requests.len() > 0 {
            self.state.selected_request_index = (self.state.selected_request_index % self.state.requests.len()
                + 1) % self.state.requests.len();
            proof {
                let i = old(self).state.selected_request_index as int;
                let n = old(self).state.requests@.len() as int;
                vstd::arithmetic::div_mod::lemma_add_mod_noop_right(1, i, n);
                vstd::arithmetic::div_mod::lemma_mod_bound(i + 1, n);
            }
        }
    }

    fn previous_request(&mut self)
        ensures
            final(self).state == (if old(self).state.requests@.len() > 0 {
                AppState {
                    selected_request_index: previous_index(
                        old(self).state.selected_request_index as int,
                        old(self).state.requests@.len() as int,
                    ) as usize,
                    ..old(self).state
                }
            } else {
                old(self).state
            }),
    {
        if self.state.requests.len() > 0 {
            if self.state.selected_request_index == 0 {
                self.state.selected_request_index = self.state.requests.len() - 1;
            } else {
                self.state.selected_request_index = self.state.selected_request_index - 1;
            }
        }
    }

    /// Moves the focus to the other list.
    pub fn switch_focus(&mut self)
        ensures
            switch_post(old(self).state, final(self).state),
    {
        self.state.focused_pane = match self.state.focused_pane {
            FocusPane::Projects => FocusPane::Requests,
            FocusPane::Requests => FocusPane::Projects,
        };
    }

    pub fn focus_projects(&mut self)
        ensures
            focus_projects_post(old(self).state, final(self).state),
    {
        self.state.focused_pane = FocusPane::Projects;
    }

    pub fn focus_requests(&mut self)
        ensures
            focus_requests_post(old(self).state, final(self).state),
    {
        self.state.focused_pane = FocusPane::Requests;
    }

    /// Leaves a response view or abandons what is being created.
    pub fn on_esc(&mut self)
        ensures
            esc_post(old(self).state, final(self).state),
    {
        match self.state.mode {
            AppMode::ViewingResponse => {
                self.state.mode = AppMode::Normal;
            },
            AppMode::CreatingProject
            | AppMode::CreatingRequest
            | AppMode::CreatingRequestMethod
            | AppMode::CreatingRequestBody => {
                self.state.mode = AppMode::Normal;
                self.state.input_buffer = String::new();
                self.state.pending_request = None;
            },
            _ => {},
        }
    }

    /// Types a character into the name being entered.
    pub fn on_char(&mut self, c: char)
        ensures
            char_post(old(self).state, final(self).state, c),
    {
        match self.state.mode {
            AppMode::CreatingProject | AppMode::CreatingRequest => {
                push_char(&mut self.state.input_buffer, c);
            },
            _ => {},
        }
    }

    /// Erases the last character of the name being entered.
    pub fn on_backspace(&mut self)
        ensures
            backspace_post(old(self).state, final(self).state),
    {
        match self.state.mode {
            AppMode::CreatingProject | AppMode::CreatingRequest => {
                self.state.input_buffer = drop_last_char(&self.state.input_buffer);
            },
            _ => {},
        }
    }

    /// Moves up in the method or body kind list, stopping at the first entry.
    pub fn on_up(&mut self)
        ensures
            up_post(old(self).state, final(self).state),
    {
        match self.state.mode {
            AppMode::CreatingRequestMethod | AppMode::CreatingRequestBody => {
                if self.state.selection_index > 0 {
                    self.state.selection_index = self.state.selection_index - 1;
                }
            },
            _ => {},
        }
    }

    /// Moves down in the method or body kind list, stopping at the last entry.
    pub fn on_down(&mut self)
        ensures
            down_post(old(self).state, final(self).state),
    {
        match self.state.mode {
            AppMode::CreatingRequestMethod => {
                if self.state.selection_index < METHOD_COUNT - 1 {
                    self.state.selection_index = self.state.selection_index + 1;
                }
            },
            AppMode::CreatingRequestBody => {
                if self.state.selection_index < BODY_KIND_COUNT - 1 {
                    self.state.selection_index = self.state.selection_index + 1;
                }
            },
            _ => {},
        }
    }

    /// Starts entering the name of a new project.
    pub fn start_create_project(&mut self)
        ensures
            start_project_post(old(self).state, final(self).state),
    {
        self.state.mode = AppMode::CreatingProject;
        self.state.input_buffer = String::new();
    }

    /// Starts creating a request in the selected project, or says that none is selected.
    pub fn start_create_request(&mut self)
        ensures
            start_request_post(old(self).state, final(self).state),
    {
        if self.state.selected_project_index < self.state.projects.len() {
            self.state.mode = AppMode::CreatingRequest;
            self.state.input_buffer = String::new();
            self.state.pending_request = Some(
                PendingRequest { name: String::new(), method: String::new(), body_type: String::new() },
            );
        } else {
            self.state.status_message = Some(String::from_str("No project selected"));
        }
    }

    /// Opens the selected request in the editor.
    pub fn on_edit(&mut self) -> (r: Result<(), Error>)
        ensures
            same_parts(*old(self), *final(self)),
            final(self).state == (AppState {
                status_message: final(self).state.status_message,
                ..old(self).state
            }),
            r is Ok && old(self).state.selected_project_index < old(self).state.projects@.len()
                && old(self).state.selected_request_index < old(self).state.requests@.len()
                ==> (final(self).state.status_message matches Some(m) && m@ == "Edited "@
                + old(self).state.requests@[old(self).state.selected_request_index as int]@),
            r is Ok && old(self).state.selected_project_index < old(self).state.projects@.len()
                && old(self).state.selected_request_index < old(self).state.requests@.len()
                ==> old(self).edit_request_usecase.editor().opened(
                old(self).state.projects@[old(self).state.selected_project_index as int].name@,
                old(self).state.requests@[old(self).state.selected_request_index as int]@,
            ),
            r is Err || old(self).state.selected_project_index >= old(self).state.projects@.len()
                || old(self).state.selected_request_index >= old(self).state.requests@.len()
                ==> final(self).state == old(self).state,
    {
        if self.state.selected_project_index < self.state.projects.len()
            && self.state.selected_request_index < self.state.requests.len() {
            let id = self.state.requests[self.state.selected_request_index].as_str();
            self.edit_request_usecase.execute(
                &self.state.projects[self.state.selected_project_index],
                id,
            )?;
            let mut m = String::from_str("Edited ");
            m.append(id);
            self.state.status_message = Some(m);
        }
        Ok(())
    }

    /// Records what sending the request `request_id` gave.
    pub fn finish_execution(&mut self, request_id: &str, outcome: Result<Response, Error>)
        ensures
            outcome is Ok ==> final(self).state == (AppState {
                current_response: Some(outcome->Ok_0),
                status_message: final(self).state.status_message,
                mode: AppMode::ViewingResponse,
                ..old(self).state
            }),
            outcome is Ok ==> (final(self).state.status_message matches Some(m) && m@
                == "Executed '"@ + request_id@ + "' successfully"@),
            outcome is Err ==> final(self).state == (AppState {
                status_message: final(self).state.status_message,
                ..old(self).state
            }),
            outcome is Err ==> (final(self).state.status_message matches Some(m) && m@ == "Error: "@
                + error_text(outcome->Err_0)),
    {
        match outcome {
            Ok(response) => {
                self.state.current_response = Some(response);
                self.state.status_message = Some(concat3("Executed '", request_id, "' successfully"));
                self.state.mode = AppMode::ViewingResponse;
            },
            Err(e) => {
                let mut m = String::from_str("Error: ");
                m.append(e.message().as_str());
                self.state.status_message = Some(m);
            },
        }
    }

    /// Acts on Enter.
    ///
    /// Browsing, Enter on the project list moves to the request list; on the request list
    /// it loads the selected request and hands it back to be sent (a request that does not
    /// load is reported in the status line). In the creation steps it confirms the name,
    /// the method or the body kind; the last step saves the new request and opens it in
    /// the editor.
    pub fn on_enter(&mut self) -> (r: Result<Option<Execution>, Error>)
        ensures
            old(self).state.mode == AppMode::Help ==> (r matches Ok(None) && final(self).state
                == old(self).state),
            (old(self).state.mode == AppMode::Normal || old(self).state.mode
                == AppMode::ViewingResponse) && old(self).state.focused_pane == FocusPane::Projects
                ==> (r matches Ok(None) && final(self).state == with_focus(
                old(self).state,
                FocusPane::Requests,
            )),
            (old(self).state.mode == AppMode::Normal || old(self).state.mode
                == AppMode::ViewingResponse) && old(self).state.focused_pane == FocusPane::Requests
                ==> enter_on_requests(old(self).state, final(self).state, r),
            old(self).state.mode == AppMode::CreatingProject ==> enter_on_project_name(
                *old(self),
                final(self).state,
                r,
            ),
            old(self).state.mode == AppMode::CreatingRequest ==> (r matches Ok(None)
                && final(self).state == next_after_name(old(self).state)),
            old(self).state.mode == AppMode::CreatingRequestMethod ==> (r matches Ok(None)
                && after_method(old(self).state, final(self).state)),
            old(self).state.mode == AppMode::CreatingRequestBody ==> enter_on_body_kind(
                *old(self),
                final(self).state,
                r,
            ),
    {
        match self.state.mode {
            AppMode::Normal | AppMode::ViewingResponse => {
                match self.state.focused_pane {
                    FocusPane::Projects => {
                        self.focus_requests();
                        Ok(None)
                    },
                    FocusPane::Requests => Ok(self.load_selected()),
                }
            },
            AppMode::CreatingProject => self.confirm_project_name(),
            AppMode::CreatingRequest => {
                self.confirm_request_name();
                Ok(None)
            },
            AppMode::CreatingRequestMethod => {
                self.confirm_method();
                Ok(None)
            },
            AppMode::CreatingRequestBody => self.confirm_body_kind(),
            AppMode::Help => Ok(None),
        }
    }

    fn load_selected(&mut self) -> (r: Option<Execution>)
        ensures
            enter_on_requests(old(self).state, final(self).state, Ok(r)),
    {
        if self.state.selected_project_index < self.state.projects.len()
            && self.state.selected_request_index < self.state.requests.len() {
            let id = self.state.requests[self.state.selected_request_index].clone();
            self.state.status_message = Some(concat3("Executing ", id.as_str(), "..."));
            self.state.current_response = None;
            let loaded = self.request_repo.load(
                &self.state.projects[self.state.selected_project_index],
                id.as_str(),
            );
            match loaded {
                Ok(request) => Some(Execution { request, request_id: id }),
                Err(e) => {
                    let mut m = String::from_str("Failed to load request: ");
                    m.append(e.message().as_str());
                    self.state.status_message = Some(m);
                    None
                },
            }
        } else {
            None
        }
    }

    fn confirm_project_name(&mut self) -> (r: Result<Option<Execution>, Error>)
        requires
            old(self).state.mode == AppMode::CreatingProject,
        ensures
            enter_on_project_name(*old(self), final(self).state, r),
    {
        if self.state.input_buffer.as_str().unicode_len() == 0 {
            return Ok(None);
        }
        let name = self.state.input_buffer.clone();
        self.create_project_usecase.execute(name.as_str())?;
        self.state.mode = AppMode::Normal;
        self.state.input_buffer = String::new();
        self.refresh_projects()?;
        self.state.status_message = Some(concat3("Project '", name.as_str(), "' created"));
        Ok(None)
    }

    fn confirm_request_name(&mut self)
        requires
            old(self).state.mode == AppMode::CreatingRequest,
        ensures
            final(self).state == next_after_name(old(self).state),
    {
        if self.state.input_buffer.as_str().unicode_len() > 0 {
            let name = self.state.input_buffer.clone();
            match self.state.pending_request.take() {
                Some(pending) => {
                    self.state.pending_request = Some(
                        PendingRequest { name, method: pending.method, body_type: pending.body_type },
                    );
                },
                None => {},
            }
            self.state.mode = AppMode::CreatingRequestMethod;
            self.state.selection_index = 0;
        }
    }

    fn confirm_method(&mut self)
        requires
            old(self).state.mode == AppMode::CreatingRequestMethod,
        ensures
            after_method(old(self).state, final(self).state),
    {
        if self.state.pending_request.is_some() {
            match method_choice(self.state.selection_index) {
                Some(m) => {
                    match self.state.pending_request.take() {
                        Some(pending) => {
                            self.state.pending_request = Some(
                                PendingRequest {
                                    name: pending.name,
                                    method: String::from_str(m),
                                    body_type: pending.body_type,
                                },
                            );
                        },
                        None => {},
                    }
                    self.state.mode = AppMode::CreatingRequestBody;
                    self.state.selection_index = 0;
                },
                None => {},
            }
        }
    }

    fn confirm_body_kind(&mut self) -> (r: Result<Option<Execution>, Error>)
        requires
            old(self).state.mode == AppMode::CreatingRequestBody,
        ensures
            enter_on_body_kind(*old(self), final(self).state, r),
    {
        if self.state.selected_project_index >= self.state.projects.len() {
            return Ok(None);
        }
        let project = self.state.projects[self.state.selected_project_index].clone();
        let pending = match self.state.pending_request.take() {
            Some(p) => p,
            None => {
                return Ok(None);
            },
        };
        let body_type = match body_kind_choice(self.state.selection_index) {
            Some(k) => k,
            None => "Empty",
        };
        self.create_request_usecase.execute(
            &project,
            pending.name.as_str(),
            pending.method.as_str(),
            body_type,
        )?;
        self.state.mode = AppMode::Normal;
        self.state.input_buffer = String::new();
        self.refresh_requests()?;
        let mut m = concat3("Request '", pending.name.as_str(), "' created in '");
        m.append(project.name.as_str());
        m.append("'");
        self.state.status_message = Some(m);
        self.on_edit()?;
        Ok(None)
    }

    /// Acts on a key: carries out what only changes the state, and tells the caller what
    /// is left to do.
    pub fn on_key(&mut self, key: Key) -> (r: KeyAction)
        ensures
            r == key_action(old(self).state.mode, key),
            key_post(old(self).state, final(self).state, key),
    {
        if is_input_mode_exec(self.state.mode) {
            match key {
                Key::Enter => KeyAction::Enter,
                Key::Esc => {
                    self.on_esc();
                    KeyAction::Nothing
                },
                Key::Backspace => {
                    self.on_backspace();
                    KeyAction::Nothing
                },
                Key::Char(c) => {
                    self.on_char(c);
                    KeyAction::Nothing
                },
                Key::Up => {
                    self.on_up();
                    KeyAction::Nothing
                },
                Key::Down => {
                    self.on_down();
                    KeyAction::Nothing
                },
                _ => KeyAction::Nothing,
            }
        } else {
            match key {
                Key::Char('q') => KeyAction::Quit,
                Key::Char('j') => {
                    self.next();
                    KeyAction::Nothing
                },
                Key::Char('k') => {
                    self.previous();
                    KeyAction::Nothing
                },
                Key::Tab => {
                    self.switch_focus();
                    KeyAction::Nothing
                },
                Key::Char('h') => {
                    self.focus_projects();
                    KeyAction::Nothing
                },
                Key::Char('l') => {
                    self.focus_requests();
                    KeyAction::Nothing
                },
                Key::Char('N') => {
                    self.start_create_project();
                    KeyAction::Nothing
                },
                Key::Char('n') => {
                    self.start_create_request();
                    KeyAction::Nothing
                },
                Key::Enter => KeyAction::Enter,
                Key::Esc => {
                    self.on_esc();
                    KeyAction::Nothing
                },
                Key::Char('e') => KeyAction::Edit,
                _ => KeyAction::Nothing,
            }
        }
    }
}

/// Whether keys in mode `m` edit the pending input.
pub fn is_input_mode_exec(m: AppMode) -> (r: bool)
    ensures
        r == is_input_mode(m),
{
    match m {
        AppMode::CreatingProject
        | AppMode::CreatingRequest
        | AppMode::CreatingRequestMethod
        | AppMode::CreatingRequestBody => true,
        _ => false,
    }
}

/// What the caller is to do after `key` in mode `m`.
pub open spec fn key_action(m: AppMode, key: Key) -> KeyAction {
    if is_input_mode(m) {
        if key == Key::Enter {
            KeyAction::Enter
        } else {
            KeyAction::Nothing
        }
    } else if key == Key::Char('q') {
        KeyAction::Quit
    } else if key == Key::Enter {
        KeyAction::Enter
    } else if key == Key::Char('e') {
        KeyAction::Edit
    } else {
        KeyAction::Nothing
    }
}

/// Enter on the request list: with a request selected, the shown response is cleared and
/// the request, once loaded, is handed back; without one nothing changes.
pub open spec fn enter_on_requests(
    before: AppState,
    after: AppState,
    r: Result<Option<Execution>, Error>,
) -> bool {
    if before.selected_project_index < before.projects@.len() && before.selected_request_index
        < before.requests@.len() {
        let id = before.requests@[before.selected_request_index as int]@;
        &&& after == (AppState {
            status_message: after.status_message,
            current_response: None,
            ..before
        })
        &&& r is Ok
        &&& match r->Ok_0 {
            Some(x) => x.request_id@ == id && (after.status_message matches Some(m) && m@
                == "Executing "@ + id + "..."@),
            None => after.status_message matches Some(m) && exists|e: Error|
                m@ == "Failed to load request: "@ + #[trigger] error_text(e),
        }
    } else {
        (r matches Ok(None) && after == before)
    }
}

/// Enter after typing a project name: an empty name does nothing. Else the typed name is
/// handed to `create_project`; a refusal leaves the state as it was. Once it is created the
/// mode goes back to normal and the project list is reloaded, sorted; an error of the reload
/// leaves the mode normal. The focus, the pending request and the selections are kept.
pub open spec fn enter_on_project_name<P: ProjectRepository, R: RequestRepository, E: Editor>(
    app: App<P, R, E>,
    after: AppState,
    r: Result<Option<Execution>, Error>,
) -> bool {
    let before = app.state;
    let name = before.input_buffer@;
    if name.len() == 0 {
        (r matches Ok(None) && after == before)
    } else {
        &&& after.focused_pane == before.focused_pane
        &&& after.pending_request == before.pending_request
        &&& after.selection_index == before.selection_index
        &&& after.selected_project_index == before.selected_project_index
        &&& after.current_response == before.current_response
        &&& r is Err ==> after == before || (after.mode == AppMode::Normal
            && after.input_buffer@.len() == 0 && app.create_project_usecase.repo().has_project(
            name,
        ))
        &&& r is Ok ==> {
            &&& r matches Ok(None)
            &&& app.create_project_usecase.repo().has_project(name)
            &&& after.mode == AppMode::Normal
            &&& after.input_buffer@.len() == 0
            &&& sorted_texts(project_names(after.projects@))
            &&& after.status_message matches Some(m) && m@ == "Project '"@ + name + "' created"@
        }
    }
}

/// The state after confirming the name of a new request: a non-empty name goes into the
/// pending request and the method is asked next.
pub open spec fn next_after_name(s: AppState) -> AppState {
    if s.input_buffer@.len() > 0 {
        AppState {
            mode: AppMode::CreatingRequestMethod,
            selection_index: 0,
            pending_request: match s.pending_request {
                Some(p) => Some(PendingRequest { name: s.input_buffer, ..p }),
                None => None,
            },
            ..s
        }
    } else {
        s
    }
}

/// Confirming the method: the highlighted method goes into the pending request and the
/// body kind is asked next.
pub open spec fn after_method(before: AppState, after: AppState) -> bool {
    match (before.pending_request, method_at(before.selection_index as int)) {
        (Some(p), Some(m)) => {
            &&& after == (AppState {
                mode: AppMode::CreatingRequestBody,
                selection_index: 0,
                pending_request: after.pending_request,
                ..before
            })
            &&& after.pending_request matches Some(q) && q.name == p.name && q.body_type
                == p.body_type && q.method@ == m
        },
        _ => after == before,
    }
}

/// The body kind at place `i`, or `Empty` past the end of the list.
pub open spec fn body_kind_or_empty(i: int) -> Seq<char> {
    match body_kind_at(i) {
        Some(k) => k,
        None => "Empty"@,
    }
}

/// Enter on the body kind: with a project selected and a request pending, the pending
/// request is used up whatever happens. Its name, its method and the highlighted body kind
/// go to `CreateRequestUseCase::execute`; a failed save leaves the mode as it was. Once
/// saved, the mode goes back to normal, the request list is reloaded, sorted, and the
/// selected request is opened in the editor, its name then in the status line (without a
/// selected request the status line tells of the new request). An error after the save
/// leaves the mode normal. The projects and their selection are kept throughout. Without a
/// project or a pending request nothing changes.
pub open spec fn enter_on_body_kind<P: ProjectRepository, R: RequestRepository, E: Editor>(
    app: App<P, R, E>,
    after: AppState,
    r: Result<Option<Execution>, Error>,
) -> bool {
    let before = app.state;
    if before.selected_project_index < before.projects@.len() && before.pending_request is Some {
        let p = before.pending_request->Some_0;
        let project = before.projects@[before.selected_project_index as int].name@;
        let was_saved = app.create_request_usecase.repo().saved(
            project,
            p.name@,
            crate::usecase::template_of(p.method@, body_kind_or_empty(before.selection_index as int)),
        );
        &&& after.pending_request is None
        &&& after.projects == before.projects
        &&& after.selected_project_index == before.selected_project_index
        &&& after.focused_pane == before.focused_pane
        &&& r is Err ==> after == (AppState { pending_request: None, ..before }) || (after.mode
            == AppMode::Normal && after.input_buffer@.len() == 0 && was_saved)
        &&& r is Ok ==> {
            &&& r matches Ok(None)
            &&& was_saved
            &&& after.mode == AppMode::Normal
            &&& after.input_buffer@.len() == 0
            &&& sorted_texts(texts(after.requests@))
            &&& if after.selected_request_index < after.requests@.len() {
                let id = after.requests@[after.selected_request_index as int]@;
                &&& app.edit_request_usecase.editor().opened(project, id)
                &&& after.status_message matches Some(m) && m@ == "Edited "@ + id
            } else {
                after.status_message matches Some(m) && m@ == "Request '"@ + p.name@
                    + "' created in '"@ + project + "'"@
            }
        }
    } else {
        (r matches Ok(None) && after == before)
    }
}

/// How `next` changes the state.
pub open spec fn next_post(before: AppState, after: AppState) -> bool {
    &&& (after.mode == before.mode)
    &&& (after.focused_pane == before.focused_pane)
    &&& (before.focused_pane == FocusPane::Requests ==> after == (
        if before.requests@.len() > 0 {
            AppState {
                selected_request_index: next_index(
                    before.selected_request_index as int,
                    before.requests@.len() as int,
                ) as usize,
                ..before
            }
        } else {
            before
        }))
    &&& (before.focused_pane == FocusPane::Projects && before.projects@.len()
            > 0 ==> after.selected_project_index == next_index(
            before.selected_project_index as int,
            before.projects@.len() as int,
        ))
    &&& (before.focused_pane == FocusPane::Projects && before.projects@.len()
            == 0 ==> after == before)
    &&& (before.focused_pane == FocusPane::Projects && before.projects@.len() > 0
        ==> same_but_requests(
        AppState { selected_project_index: after.selected_project_index, ..before },
        after,
    ))
}

/// How `previous` changes the state.
pub open spec fn previous_post(before: AppState, after: AppState) -> bool {
    &&& (after.mode == before.mode)
    &&& (after.focused_pane == before.focused_pane)
    &&& (before.focused_pane == FocusPane::Requests ==> after == (
        if before.requests@.len() > 0 {
            AppState {
                selected_request_index: previous_index(
                    before.selected_request_index as int,
                    before.requests@.len() as int,
                ) as usize,
                ..before
            }
        } else {
            before
        }))
    &&& (before.focused_pane == FocusPane::Projects && before.projects@.len()
            > 0 ==> after.selected_project_index == previous_index(
            before.selected_project_index as int,
            before.projects@.len() as int,
        ))
    &&& (before.focused_pane == FocusPane::Projects && before.projects@.len()
            == 0 ==> after == before)
    &&& (before.focused_pane == FocusPane::Projects && before.projects@.len() > 0
        ==> same_but_requests(
        AppState { selected_project_index: after.selected_project_index, ..before },
        after,
    ))
}

/// How `on_esc` changes the state.
pub open spec fn esc_post(before: AppState, after: AppState) -> bool {
    &&& (before.mode == AppMode::ViewingResponse ==> after == with_mode(
            before,
            AppMode::Normal,
        ))
    &&& (is_input_mode(before.mode) ==> after == (AppState {
            mode: AppMode::Normal,
            input_buffer: after.input_buffer,
            pending_request: None,
            ..before
        }) && after.input_buffer@.len() == 0)
    &&& (before.mode == AppMode::Normal || before.mode == AppMode::Help
            ==> after == before)
}

/// How `on_char` changes the state.
pub open spec fn char_post(before: AppState, after: AppState, c: char) -> bool {
    &&& (before.mode == AppMode::CreatingProject || before.mode
            == AppMode::CreatingRequest ==> after == (AppState {
            input_buffer: after.input_buffer,
            ..before
        }) && after.input_buffer@ == before.input_buffer@.push(c))
    &&& (!(before.mode == AppMode::CreatingProject || before.mode
            == AppMode::CreatingRequest) ==> after == before)
}

/// How `on_backspace` changes the state.
pub open spec fn backspace_post(before: AppState, after: AppState) -> bool {
    &&& (before.mode == AppMode::CreatingProject || before.mode
            == AppMode::CreatingRequest ==> after == (AppState {
            input_buffer: after.input_buffer,
            ..before
        }) && after.input_buffer@ == (if before.input_buffer@.len() > 0 {
            before.input_buffer@.drop_last()
        } else {
            before.input_buffer@
        }))
    &&& (!(before.mode == AppMode::CreatingProject || before.mode
            == AppMode::CreatingRequest) ==> after == before)
}

/// How `on_up` changes the state.
pub open spec fn up_post(before: AppState, after: AppState) -> bool {
    &&& (after == (if (before.mode == AppMode::CreatingRequestMethod
            || before.mode == AppMode::CreatingRequestBody)
            && before.selection_index > 0 {
            AppState {
                selection_index: (before.selection_index - 1) as usize,
                ..before
            }
        } else {
            before
        }))
}

/// How `on_down` changes the state.
pub open spec fn down_post(before: AppState, after: AppState) -> bool {
    &&& (after == (if (before.mode == AppMode::CreatingRequestMethod
            && before.selection_index < METHOD_COUNT - 1) || (before.mode
            == AppMode::CreatingRequestBody && before.selection_index
            < BODY_KIND_COUNT - 1) {
            AppState {
                selection_index: (before.selection_index + 1) as usize,
                ..before
            }
        } else {
            before
        }))
}

/// How `start_create_project` changes the state.
pub open spec fn start_project_post(before: AppState, after: AppState) -> bool {
    &&& (after == (AppState {
            mode: AppMode::CreatingProject,
            input_buffer: after.input_buffer,
            ..before
        }))
    &&& (after.input_buffer@.len() == 0)
}

/// How `start_create_request` changes the state.
pub open spec fn start_request_post(before: AppState, after: AppState) -> bool {
    &&& (before.selected_project_index < before.projects@.len() ==> {
            &&& after == (AppState {
                mode: AppMode::CreatingRequest,
                input_buffer: after.input_buffer,
                pending_request: after.pending_request,
                ..before
            })
            &&& after.input_buffer@.len() == 0
            &&& after.pending_request matches Some(p) && p.name@.len() == 0
                && p.method@.len() == 0 && p.body_type@.len() == 0
        })
    &&& (before.selected_project_index >= before.projects@.len() ==> {
            &&& after == (AppState {
                status_message: after.status_message,
                ..before
            })
            &&& after.status_message matches Some(m) && m@
                == "No project selected"@
        })
}

/// How `switch_focus` changes the state.
pub open spec fn switch_post(before: AppState, after: AppState) -> bool {
    &&& (after == with_focus(
            before,
            match before.focused_pane {
                FocusPane::Projects => FocusPane::Requests,
                FocusPane::Requests => FocusPane::Projects,
            },
        ))
}

/// How `focus_projects` changes the state.
pub open spec fn focus_projects_post(before: AppState, after: AppState) -> bool {
    &&& (after == with_focus(before, FocusPane::Projects))
}

/// How `focus_requests` changes the state.
pub open spec fn focus_requests_post(before: AppState, after: AppState) -> bool {
    &&& (after == with_focus(before, FocusPane::Requests))
}

/// How a key changes the state: the method it stands for, as `on_key` calls it; keys that
/// leave work to the caller, and keys without a meaning, change nothing.
pub open spec fn key_post(before: AppState, after: AppState, key: Key) -> bool {
    if is_input_mode(before.mode) {
        match key {
            Key::Esc => esc_post(before, after),
            Key::Backspace => backspace_post(before, after),
            Key::Char(c) => char_post(before, after, c),
            Key::Up => up_post(before, after),
            Key::Down => down_post(before, after),
            _ => after == before,
        }
    } else if key == Key::Char('j') {
        next_post(before, after)
    } else if key == Key::Char('k') {
        previous_post(before, after)
    } else if key == Key::Tab {
        switch_post(before, after)
    } else if key == Key::Char('h') {
        focus_projects_post(before, after)
    } else if key == Key::Char('l') {
        focus_requests_post(before, after)
    } else if key == Key::Char('N') {
        start_project_post(before, after)
    } else if key == Key::Char('n') {
        start_request_post(before, after)
    } else if key == Key::Esc {
        esc_post(before, after)
    } else {
        after == before
    }
}

} // verus!
