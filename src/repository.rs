use vstd::prelude::*;

use crate::error::Error;
use crate::order::{sorted_texts, texts};
use crate::project::Project;
use crate::request::{Request, RequestView};
use crate::store::project_names;

verus! {

/// Where projects are kept: lists them and their requests, creates them.
pub trait ProjectRepository: Send + Sync {
    /// All projects, sorted by name.
    fn list_projects(&self) -> (r: Result<Vec<Project>, Error>)
        ensures
            r matches Ok(ps) ==> sorted_texts(project_names(ps@)),
    ;

    /// The ids of the requests in a project, sorted.
    fn list_requests(&self, project: &Project) -> (r: Result<Vec<String>, Error>)
        ensures
            r matches Ok(ids) ==> sorted_texts(texts(ids@)),
    ;

    /// Whether a project of this name was created in the repository. An implementation that
    /// models its contents defines it; by default it holds of every name, and the contract of
    /// `create_project` then says nothing more than success.
    open spec fn has_project(&self, name: Seq<char>) -> bool {
        true
    }

    /// Creates an empty project.
    fn create_project(&self, name: &str) -> (r: Result<(), Error>)
        ensures
            r is Ok ==> self.has_project(name@),
    ;
}

/// Where requests are kept: loads and saves them by project and id.
pub trait RequestRepository: Send + Sync {
    /// The request stored under `request_id` in `project`.
    fn load(&self, project: &Project, request_id: &str) -> Result<Request, Error>;

    /// Whether the request `d` was stored under `id` in the project named `project`. An
    /// implementation that models its contents defines it; by default it always holds, and
    /// the contract of `save` then says nothing more than success.
    open spec fn saved(&self, project: Seq<char>, id: Seq<char>, d: RequestView) -> bool {
        true
    }

    /// Stores `request` under `request_id` in `project`, replacing what was there.
    fn save(&self, project: &Project, request_id: &str, request: &Request) -> (r: Result<(), Error>)
        ensures
            r is Ok ==> self.saved(project.name@, request_id@, request@),
    ;
}

/// An external editor that opens a stored request.
pub trait Editor: Send + Sync {
    /// Whether the request `id` of the project named `project` was opened in the editor. An
    /// implementation that records its runs defines it; by default it always holds.
    open spec fn opened(&self, project: Seq<char>, id: Seq<char>) -> bool {
        true
    }

    /// Opens the file of `request_id` in `project` and waits for the editor to finish.
    fn edit(&self, project: &Project, request_id: &str) -> (r: Result<(), Error>)
        ensures
            r is Ok ==> self.opened(project.name@, request_id@),
    ;
}

} // verus!
