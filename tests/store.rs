use htup::codec::{format_http_file, ParseError};
use htup::error::Error;
use htup::project::Project;
use htup::request::Request;
use htup::store::{
    decode_request, join_path, projects_from_names, request_ids_from_names, resolve_request_path,
    FsProjectRepository, FsRequestRepository, SystemCommandEditor,
};
use htup::transport::http_method;
use htup::usecase::CreateRequestUseCase;

fn names(v: &[&str]) -> Vec<String> {
    v.iter().map(|s| s.to_string()).collect()
}

#[test]
fn empty_root_lists_no_projects() {
    assert!(projects_from_names(Vec::new()).is_empty());
}

#[test]
fn projects_are_sorted_by_name() {
    let ps = projects_from_names(names(&["zeta", "Alpha", "beta", "alpha"]));
    let got: Vec<&str> = ps.iter().map(|p| p.name.as_str()).collect();
    assert_eq!(got, vec!["Alpha", "alpha", "beta", "zeta"]);
}

#[test]
fn only_http_files_are_requests() {
    assert!(request_ids_from_names(names(&["notes.txt", "README", "x.json"])).is_empty());
    assert!(request_ids_from_names(Vec::new()).is_empty());
}

#[test]
fn request_ids_are_stems_sorted() {
    let ids = request_ids_from_names(names(&["b.http", "a.http", "c.txt", ".http", "a.b.http", "x.http.bak"]));
    assert_eq!(ids, vec!["a", "a.b", "b"]);
}

#[test]
fn paths_follow_the_layout() {
    assert_eq!(join_path("/data", "p"), "/data/p");
    let repo = FsRequestRepository::new("/data");
    let project = Project::new("p");
    assert_eq!(repo.resolve_path(&project, "r1"), "/data/p/r1.http");
    assert_eq!(repo.project_dir(&project), "/data/p");
    assert_eq!(resolve_request_path("/data", &project, "r1"), "/data/p/r1.http");
    let projects = FsProjectRepository::new("/data");
    assert_eq!(projects.root(), "/data");
    assert_eq!(projects.project_path("p"), "/data/p");
}

#[test]
fn editor_uses_the_store_path() {
    let editor = SystemCommandEditor::new("/data", None);
    let store = FsRequestRepository::new("/data");
    let project = Project::new("p");
    assert_eq!(editor.resolve_path(&project, "r1"), store.resolve_path(&project, "r1"));
    assert_eq!(editor.program(), "vim");
    let nano = SystemCommandEditor::new("/data", Some("nano".to_string()));
    assert_eq!(nano.program(), "nano");
}

#[test]
fn editor_outcomes() {
    let editor = SystemCommandEditor::new("/data", Some("ed".to_string()));
    assert_eq!(editor.outcome(Some(true)), Ok(()));
    assert_eq!(
        editor.outcome(Some(false)),
        Err(Error::EditorLaunch("Editor exited with non-zero status code".to_string()))
    );
    assert_eq!(editor.outcome(None), Err(Error::EditorLaunch("Failed to launch editor: ed".to_string())));
}

#[test]
fn second_create_is_rejected() {
    let repo = FsProjectRepository::new("/data");
    assert_eq!(repo.create_target("p", false), Ok("/data/p".to_string()));
    assert_eq!(repo.create_target("p", true), Err(Error::AlreadyExists("p".to_string())));
}

#[test]
fn saved_text_loads_back() {
    let mut d = Request::new("POST", "https://example.com/r1");
    d.headers.insert("Content-Type".to_string(), "text/plain".to_string());
    d.body = Some("hello".to_string());
    let loaded = decode_request("/r/p/r1.http", &format_http_file(&d)).unwrap();
    assert_eq!(loaded, d);
}

#[test]
fn second_save_replaces_first() {
    let mut first = Request::new("POST", "https://example.com/one");
    first.headers.insert("X-Old".to_string(), "1".to_string());
    first.body = Some("old".to_string());
    let second = Request::new("GET", "https://example.com/two");
    let old_file = format_http_file(&first);
    assert_eq!(decode_request("/r/p/r.http", &old_file).unwrap(), first);
    let file = format_http_file(&second);
    let loaded = decode_request("/r/p/r.http", &file).unwrap();
    assert_eq!(loaded, second);
    assert!(loaded.headers.get("X-Old").is_none());
    assert_eq!(loaded.body, None);
}

#[test]
fn malformed_file_is_a_parse_error() {
    assert_eq!(
        decode_request("/r/p/a.http", "GET").unwrap_err(),
        Error::Parse("/r/p/a.http".to_string(), ParseError::MissingUrl)
    );
    assert_eq!(
        decode_request("/r/p/b.http", "").unwrap_err(),
        Error::Parse("/r/p/b.http".to_string(), ParseError::MissingMethod)
    );
}

#[test]
fn error_messages() {
    assert_eq!(
        Error::Parse("/r/p/a.http".to_string(), ParseError::MissingUrl).message(),
        "Failed to parse request file /r/p/a.http: Missing URL"
    );
    assert_eq!(Error::NotFound("/a/b.http".to_string()).message(), "Not found: /a/b.http");
    assert_eq!(Error::AlreadyExists("p".to_string()).message(), "Project already exists: p");
    assert_eq!(Error::Storage("disk full".to_string()).message(), "disk full");
    assert_eq!(Error::Transport("timeout".to_string()).message(), "timeout");
    assert_eq!(Error::EditorLaunch("no editor".to_string()).message(), "no editor");
}

#[test]
fn json_template() {
    let r = CreateRequestUseCase::<NoStore>::template("POST", "JSON");
    assert_eq!(r.method, "POST");
    assert_eq!(r.url, "https://example.com");
    assert_eq!(r.headers.len(), 1);
    assert_eq!(r.headers.get("Content-Type").unwrap(), "application/json");
    assert_eq!(r.body.as_deref(), Some("{\n    \n}"));
}

#[test]
fn empty_template() {
    let r = CreateRequestUseCase::<NoStore>::template("GET", "Empty");
    assert_eq!(r.method, "GET");
    assert_eq!(r.url, "https://example.com");
    assert!(r.headers.is_empty());
    assert_eq!(r.body, None);
}

#[test]
fn method_tokens_are_checked() {
    assert!(http_method(&Request::new("GET", "u")).is_ok());
    assert!(http_method(&Request::new("PROPFIND", "u")).is_ok());
    assert_eq!(http_method(&Request::new("GET", "u")).unwrap(), reqwest::Method::GET);
    assert_eq!(
        http_method(&Request::new("BAD METHOD", "u")).unwrap_err(),
        Error::Transport("Invalid HTTP method: BAD METHOD".to_string())
    );
    assert!(http_method(&Request::new("", "u")).is_err());
    assert!(http_method(&Request::new("G(T", "u")).is_err());
}

struct NoStore;

impl htup::repository::RequestRepository for NoStore {
    fn load(&self, _project: &Project, _request_id: &str) -> Result<Request, Error> {
        Err(Error::NotFound(String::new()))
    }

    fn save(&self, _project: &Project, _request_id: &str, _request: &Request) -> Result<(), Error> {
        Ok(())
    }
}
