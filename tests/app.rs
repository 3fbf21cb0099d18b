use std::collections::{BTreeMap, BTreeSet};
use std::sync::{Arc, Mutex};
use std::time::Duration;

use htup::app::{App, Key, KeyAction};
use htup::codec::format_http_file;
use htup::error::Error;
use htup::project::Project;
use htup::repository::{Editor, ProjectRepository, RequestRepository};
use htup::request::Request;
use htup::response::Response;
use htup::state::{AppMode, AppState, FocusPane};
use htup::store::{
    decode_request, projects_from_names, request_ids_from_names, FsProjectRepository,
    FsRequestRepository,
};
use htup::usecase::{
    CreateProjectUseCase, CreateRequestUseCase, EditRequestUseCase, ListProjectsUseCase,
};

/// A store kept in memory, laid out and read as the disk store is.
struct MemStore {
    projects: FsProjectRepository,
    requests: FsRequestRepository,
    dirs: Mutex<BTreeSet<String>>,
    files: Mutex<BTreeMap<String, String>>,
}

impl MemStore {
    fn new() -> Self {
        MemStore {
            projects: FsProjectRepository::new("/root"),
            requests: FsRequestRepository::new("/root"),
            dirs: Mutex::new(BTreeSet::new()),
            files: Mutex::new(BTreeMap::new()),
        }
    }

    fn put_file(&self, project: &str, name: &str, text: &str) {
        let path = format!("/root/{}/{}", project, name);
        self.dirs.lock().unwrap().insert(format!("/root/{}", project));
        self.files.lock().unwrap().insert(path, text.to_string());
    }
}

impl ProjectRepository for MemStore {
    fn list_projects(&self) -> Result<Vec<Project>, Error> {
        let names = self
            .dirs
            .lock()
            .unwrap()
            .iter()
            .map(|d| d.trim_start_matches("/root/").to_string())
            .collect();
        Ok(projects_from_names(names))
    }

    fn list_requests(&self, project: &Project) -> Result<Vec<String>, Error> {
        let dir = self.projects.project_path(&project.name) + "/";
        let names = self
            .files
            .lock()
            .unwrap()
            .keys()
            .filter_map(|k| k.strip_prefix(dir.as_str()).map(|n| n.to_string()))
            .collect();
        Ok(request_ids_from_names(names))
    }

    fn create_project(&self, name: &str) -> Result<(), Error> {
        let exists = self.dirs.lock().unwrap().contains(&self.projects.project_path(name));
        let path = self.projects.create_target(name, exists)?;
        self.dirs.lock().unwrap().insert(path);
        Ok(())
    }
}

impl RequestRepository for MemStore {
    fn load(&self, project: &Project, request_id: &str) -> Result<Request, Error> {
        let path = self.requests.resolve_path(project, request_id);
        let text = self.files.lock().unwrap().get(&path).cloned();
        match text {
            Some(t) => decode_request(&path, &t),
            None => Err(Error::NotFound(path)),
        }
    }

    fn save(&self, project: &Project, request_id: &str, request: &Request) -> Result<(), Error> {
        self.dirs.lock().unwrap().insert(self.requests.project_dir(project));
        let path = self.requests.resolve_path(project, request_id);
        self.files.lock().unwrap().insert(path, format_http_file(request));
        Ok(())
    }
}

struct CountingEditor {
    calls: Mutex<Vec<String>>,
}

impl Editor for CountingEditor {
    fn edit(&self, project: &Project, request_id: &str) -> Result<(), Error> {
        self.calls.lock().unwrap().push(format!("{}/{}", project.name, request_id));
        Ok(())
    }
}

type TestApp = App<MemStore, MemStore, CountingEditor>;

fn app_with(store: Arc<MemStore>) -> (TestApp, Arc<CountingEditor>) {
    let editor = Arc::new(CountingEditor { calls: Mutex::new(Vec::new()) });
    let app = App::new(
        ListProjectsUseCase::new(store.clone()),
        CreateProjectUseCase::new(store.clone()),
        CreateRequestUseCase::new(store.clone()),
        EditRequestUseCase::new(editor.clone()),
        store,
    );
    (app, editor)
}

#[test]
fn fresh_store_lists_nothing() {
    let store = Arc::new(MemStore::new());
    let list = ListProjectsUseCase::new(store.clone());
    assert!(list.list_projects().unwrap().is_empty());
    store.put_file("p", "notes.txt", "x");
    assert!(list.list_requests(&Project::new("p")).unwrap().is_empty());
    assert!(list.list_requests(&Project::new("absent")).unwrap().is_empty());
}

#[test]
fn create_then_save_then_load() {
    let store = Arc::new(MemStore::new());
    CreateProjectUseCase::new(store.clone()).execute("p").unwrap();
    let mut d = Request::new("POST", "https://example.com/x");
    d.headers.insert("Accept".to_string(), "text/plain".to_string());
    d.body = Some("payload".to_string());
    let p = Project::new("p");
    store.save(&p, "r1", &d).unwrap();
    assert_eq!(store.load(&p, "r1").unwrap(), d);
    assert_eq!(store.list_requests(&p).unwrap(), vec!["r1".to_string()]);
}

#[test]
fn duplicate_project_is_rejected() {
    let store = Arc::new(MemStore::new());
    let create = CreateProjectUseCase::new(store.clone());
    create.execute("p").unwrap();
    store.save(&Project::new("p"), "keep", &Request::new("GET", "http://h")).unwrap();
    assert_eq!(create.execute("p"), Err(Error::AlreadyExists("p".to_string())));
    assert_eq!(store.list_requests(&Project::new("p")).unwrap(), vec!["keep".to_string()]);
    assert_eq!(store.list_projects().unwrap().len(), 1);
}

#[test]
fn save_twice_keeps_only_second() {
    let store = Arc::new(MemStore::new());
    let p = Project::new("p");
    let mut first = Request::new("POST", "http://one");
    first.headers.insert("X-First".to_string(), "1".to_string());
    first.body = Some("first".to_string());
    let mut second = Request::new("PUT", "http://two");
    second.headers.insert("X-Second".to_string(), "2".to_string());
    store.save(&p, "r", &first).unwrap();
    store.save(&p, "r", &second).unwrap();
    let loaded = store.load(&p, "r").unwrap();
    assert_eq!(loaded, second);
    assert!(loaded.headers.get("X-First").is_none());
}

#[test]
fn create_request_from_json_template() {
    let store = Arc::new(MemStore::new());
    let p = Project::new("p");
    CreateRequestUseCase::new(store.clone()).execute(&p, "new", "POST", "JSON").unwrap();
    let loaded = store.load(&p, "new").unwrap();
    assert_eq!(loaded.url, "https://example.com");
    assert_eq!(loaded.headers.get("Content-Type").unwrap(), "application/json");
    assert_eq!(loaded.body.as_deref(), Some("{\n    \n}"));
}

#[test]
fn initial_state() {
    let s = AppState::new();
    assert_eq!(s.mode, AppMode::Normal);
    assert_eq!(s.focused_pane, FocusPane::Projects);
    assert!(s.selected_project().is_none());
    assert!(s.selected_request_id().is_none());
}

fn seeded() -> (TestApp, Arc<CountingEditor>) {
    let store = Arc::new(MemStore::new());
    store.put_file("beta", "b.http", "GET http://b");
    store.put_file("alpha", "two.http", "GET http://two");
    store.put_file("alpha", "one.http", "POST http://one\n\nbody");
    store.put_file("alpha", "broken.http", "GET");
    let (mut app, editor) = app_with(store);
    app.refresh_projects().unwrap();
    (app, editor)
}

#[test]
fn navigation_wraps_around() {
    let (mut app, _) = seeded();
    assert_eq!(app.state.selected_project().unwrap().name, "alpha");
    assert_eq!(app.state.requests, vec!["broken", "one", "two"]);
    app.next();
    assert_eq!(app.state.selected_project_index, 1);
    assert_eq!(app.state.requests, vec!["b"]);
    app.next();
    assert_eq!(app.state.selected_project_index, 0);
    app.previous();
    assert_eq!(app.state.selected_project_index, 1);
    app.previous();
    app.switch_focus();
    assert_eq!(app.state.focused_pane, FocusPane::Requests);
    app.previous();
    assert_eq!(app.state.selected_request_index, 2);
    app.next();
    assert_eq!(app.state.selected_request_index, 0);
    app.focus_projects();
    assert_eq!(app.state.focused_pane, FocusPane::Projects);
    app.focus_requests();
    assert_eq!(app.state.focused_pane, FocusPane::Requests);
}

#[test]
fn enter_loads_selected_request() {
    let (mut app, _) = seeded();
    assert!(app.on_enter().unwrap().is_none());
    assert_eq!(app.state.focused_pane, FocusPane::Requests);
    app.next();
    let exec = app.on_enter().unwrap().unwrap();
    assert_eq!(exec.request_id, "one");
    assert_eq!(exec.request.body.as_deref(), Some("body"));
    assert_eq!(app.state.status_message.as_deref(), Some("Executing one..."));
    let resp = Response::new(200, "OK".to_string(), "done".to_string(), Duration::from_millis(5));
    app.finish_execution(&exec.request_id, Ok(resp));
    assert_eq!(app.state.mode, AppMode::ViewingResponse);
    assert_eq!(app.state.current_response.as_ref().unwrap().status, 200);
    assert_eq!(app.state.status_message.as_deref(), Some("Executed 'one' successfully"));
    app.on_esc();
    assert_eq!(app.state.mode, AppMode::Normal);
}

#[test]
fn enter_reports_unreadable_request() {
    let (mut app, _) = seeded();
    app.focus_requests();
    assert!(app.on_enter().unwrap().is_none());
    assert_eq!(
        app.state.status_message.as_deref(),
        Some("Failed to load request: Failed to parse request file /root/alpha/broken.http: Missing URL")
    );
}

#[test]
fn failed_execution_is_reported() {
    let (mut app, _) = seeded();
    app.finish_execution("x", Err(Error::Transport("refused".to_string())));
    assert_eq!(app.state.status_message.as_deref(), Some("Error: refused"));
    assert_eq!(app.state.mode, AppMode::Normal);
}

#[test]
fn create_project_by_typing() {
    let (mut app, _) = seeded();
    app.start_create_project();
    assert_eq!(app.state.mode, AppMode::CreatingProject);
    for c in "gammx".chars() {
        app.on_char(c);
    }
    app.on_backspace();
    app.on_char('a');
    assert_eq!(app.state.input_buffer, "gamma");
    assert!(app.on_enter().unwrap().is_none());
    assert_eq!(app.state.mode, AppMode::Normal);
    assert_eq!(app.state.input_buffer, "");
    assert_eq!(app.state.status_message.as_deref(), Some("Project 'gamma' created"));
    let names: Vec<&str> = app.state.projects.iter().map(|p| p.name.as_str()).collect();
    assert_eq!(names, vec!["alpha", "beta", "gamma"]);
}

#[test]
fn create_request_wizard() {
    let (mut app, editor) = seeded();
    app.start_create_request();
    assert_eq!(app.state.mode, AppMode::CreatingRequest);
    app.on_enter().unwrap();
    assert_eq!(app.state.mode, AppMode::CreatingRequest);
    for c in "zz".chars() {
        app.on_char(c);
    }
    app.on_enter().unwrap();
    assert_eq!(app.state.mode, AppMode::CreatingRequestMethod);
    app.on_down();
    app.on_down();
    app.on_up();
    assert_eq!(app.state.selection_index, 1);
    for _ in 0..10 {
        app.on_down();
    }
    assert_eq!(app.state.selection_index, 4);
    app.on_up();
    app.on_up();
    app.on_up();
    app.on_enter().unwrap();
    assert_eq!(app.state.pending_request.as_ref().unwrap().method, "POST");
    assert_eq!(app.state.mode, AppMode::CreatingRequestBody);
    app.on_down();
    app.on_down();
    assert_eq!(app.state.selection_index, 1);
    app.on_enter().unwrap();
    assert_eq!(app.state.mode, AppMode::Normal);
    assert!(app.state.pending_request.is_none());
    assert_eq!(app.state.requests, vec!["broken", "one", "two", "zz"]);
    assert_eq!(*editor.calls.lock().unwrap(), vec!["alpha/broken".to_string()]);
}

#[test]
fn esc_abandons_creation() {
    let (mut app, _) = seeded();
    app.start_create_request();
    app.on_char('x');
    app.on_esc();
    assert_eq!(app.state.mode, AppMode::Normal);
    assert_eq!(app.state.input_buffer, "");
    assert!(app.state.pending_request.is_none());
}

#[test]
fn no_project_no_request() {
    let (mut app, _) = app_with(Arc::new(MemStore::new()));
    app.start_create_request();
    assert_eq!(app.state.mode, AppMode::Normal);
    assert_eq!(app.state.status_message.as_deref(), Some("No project selected"));
}

#[test]
fn edit_opens_selected_request() {
    let (mut app, editor) = seeded();
    app.on_edit().unwrap();
    assert_eq!(app.state.status_message.as_deref(), Some("Edited broken"));
    assert_eq!(*editor.calls.lock().unwrap(), vec!["alpha/broken".to_string()]);
}

#[test]
fn keys_map_to_actions() {
    let (mut app, _) = seeded();
    assert_eq!(app.on_key(Key::Char('q')), KeyAction::Quit);
    assert_eq!(app.on_key(Key::Char('e')), KeyAction::Edit);
    assert_eq!(app.on_key(Key::Enter), KeyAction::Enter);
    assert_eq!(app.on_key(Key::Char('j')), KeyAction::Nothing);
    assert_eq!(app.state.selected_project_index, 1);
    assert_eq!(app.on_key(Key::Tab), KeyAction::Nothing);
    assert_eq!(app.state.focused_pane, FocusPane::Requests);
    assert_eq!(app.on_key(Key::Char('N')), KeyAction::Nothing);
    assert_eq!(app.state.mode, AppMode::CreatingProject);
    assert_eq!(app.on_key(Key::Char('q')), KeyAction::Nothing);
    assert_eq!(app.state.input_buffer, "q");
    assert_eq!(app.on_key(Key::Backspace), KeyAction::Nothing);
    assert_eq!(app.on_key(Key::Enter), KeyAction::Enter);
    assert_eq!(app.on_key(Key::Esc), KeyAction::Nothing);
    assert_eq!(app.state.mode, AppMode::Normal);
    assert_eq!(app.on_key(Key::Other), KeyAction::Nothing);
}
