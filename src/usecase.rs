use std::sync::Arc;
use vstd::prelude::*;
use vstd::string::*;

use crate::error::Error;
use crate::order::{sorted_texts, texts};
use crate::project::Project;
use crate::repository::{Editor, ProjectRepository, RequestRepository};
use crate::request::{insert_header, Request, RequestView};
use crate::store::project_names;

verus! {

/// The URL that a new request starts with.
pub const TEMPLATE_URL: &'static str = "https://example.com";

/// The body kind that gives a JSON template.
pub const JSON_BODY: &'static str = "JSON";

/// The body of the JSON template: an empty object.
pub const JSON_TEMPLATE_BODY: &'static str = "{\n    \n}";

/// The request that a new request starts as: `method` on the template URL; for the JSON
/// body kind a JSON content type and an empty object, for any other kind no header and no
/// body.
pub open spec fn template_of(method: Seq<char>, body_type: Seq<char>) -> RequestView {
    RequestView {
        method,
        url: TEMPLATE_URL@,
        headers: if body_type == JSON_BODY@ {
            seq![("Content-Type"@, "application/json"@)]
        } else {
            Seq::empty()
        },
        body: if body_type == JSON_BODY@ {
            Some(JSON_TEMPLATE_BODY@)
        } else {
            None
        },
    }
}

/// Creates projects.
pub struct CreateProjectUseCase<P: ProjectRepository> {
    repo: Arc<P>,
}

impl<P: ProjectRepository> CreateProjectUseCase<P> {
    pub fn new(repo: Arc<P>) -> (r: Self)
        ensures
            r.repo() == repo,
    {
        CreateProjectUseCase { repo }
    }

    pub closed spec fn repo(&self) -> Arc<P> {
        self.repo
    }

    /// Creates the project `name` in the repository.
    pub fn execute(&self, name: &str) -> (r: Result<(), Error>)
        ensures
            r is Ok ==> self.repo().has_project(name@),
    {
        self.repo.create_project(name)
    }
}

/// Lists projects and the requests in them.
pub struct ListProjectsUseCase<P: ProjectRepository> {
    repo: Arc<P>,
}

impl<P: ProjectRepository> ListProjectsUseCase<P> {
    pub fn new(repo: Arc<P>) -> (r: Self)
        ensures
            r.repo() == repo,
    {
        ListProjectsUseCase { repo }
    }

    pub closed spec fn repo(&self) -> Arc<P> {
        self.repo
    }

    /// All projects, sorted by name.
    pub fn list_projects(&self) -> (r: Result<Vec<Project>, Error>)
        ensures
            r matches Ok(ps) ==> sorted_texts(project_names(ps@)),
    {
        self.repo.list_projects()
    }

    /// The ids of the requests in `project`, sorted.
    pub fn list_requests(&self, project: &Project) -> (r: Result<Vec<String>, Error>)
        ensures
            r matches Ok(ids) ==> sorted_texts(texts(ids@)),
    {
        self.repo.list_requests(project)
    }
}

/// Creates requests from a template.
pub struct CreateRequestUseCase<R: RequestRepository> {
    repo: Arc<R>,
}

impl<R: RequestRepository> CreateRequestUseCase<R> {
    pub fn new(repo: Arc<R>) -> (r: Self)
        ensures
            r.repo() == repo,
    {
        CreateRequestUseCase { repo }
    }

    pub closed spec fn repo(&self) -> Arc<R> {
        self.repo
    }

    /// The request that a new request of `method` and body kind `body_type` starts as.
    pub fn template(method: &str, body_type: &str) -> (r: Request)
        ensures
            r@ == template_of(method@, body_type@),
    {
        let mut request = Request::new(method, TEMPLATE_URL);
        let kind = String::from_str(body_type);
        let json = String::from_str(JSON_BODY);
        if kind == json {
            let name = String::from_str("Content-Type");
            let value = String::from_str("application/json");
            let ghost empty = request.headers@;
            request.headers.insert(name, value);
            proof {
                assert(empty =~= Seq::<(Seq<char>, Seq<char>)>::empty());
                assert(insert_header(empty, "Content-Type"@, "application/json"@) =~= seq![
                    ("Content-Type"@, "application/json"@),
                ]);
            }
            request.body = Some(String::from_str(JSON_TEMPLATE_BODY));
        }
        proof {
            if kind@ != json@ {
                assert(request.headers@ =~= Seq::<(Seq<char>, Seq<char>)>::empty());
            }
        }
        request
    }

    /// Saves the template request of `method` and `body_type` as `request_id` in `project`.
    pub fn execute(&self, project: &Project, request_id: &str, method: &str, body_type: &str) -> (r:
        Result<(), Error>)
        ensures
            r is Ok ==> self.repo().saved(
                project.name@,
                request_id@,
                template_of(method@, body_type@),
            ),
    {
        let request = Self::template(method, body_type);
        self.repo.save(project, request_id, &request)
    }
}

/// Opens requests in an editor.
pub struct EditRequestUseCase<E: Editor> {
    editor: Arc<E>,
}

impl<E: Editor> EditRequestUseCase<E> {
    pub fn new(editor: Arc<E>) -> (r: Self)
        ensures
            r.editor() == editor,
    {
        EditRequestUseCase { editor }
    }

    pub closed spec fn editor(&self) -> Arc<E> {
        self.editor
    }

    /// Opens the request `request_id` of `project` in the editor.
    pub fn execute(&self, project: &Project, request_id: &str) -> (r: Result<(), Error>)
        ensures
            r is Ok ==> self.editor().opened(project.name@, request_id@),
    {
        self.editor.edit(project, request_id)
    }
}

} // verus!
