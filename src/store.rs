use vstd::prelude::*;
use vstd::string::*;

use crate::codec::{decode, encode, parse_http_file, ParseError};
use crate::error::Error;
use crate::order::{sort_texts, sorted_texts, texts};
use crate::project::Project;
use crate::request::{Request, RequestView};
use crate::roundtrip::{lemma_round_trip, round_trips};

verus! {

broadcast use vstd::seq_lib::group_to_multiset_ensures;

/// The extension, with its dot, of the file that holds a request.
pub const REQUEST_FILE_SUFFIX: &'static str = ".http";

/// The name of the default editor program.
pub const DEFAULT_EDITOR: &'static str = "vim";

/// `name` inside the directory `dir`.
pub open spec fn path_join(dir: Seq<char>, name: Seq<char>) -> Seq<char> {
    dir + seq!['/'] + name
}

/// The name of the file that holds the request `id`.
pub open spec fn request_file_name(id: Seq<char>) -> Seq<char> {
    id + REQUEST_FILE_SUFFIX@
}

/// Where the request `id` of `project` is kept under `root`.
pub open spec fn request_path(root: Seq<char>, project: Seq<char>, id: Seq<char>) -> Seq<char> {
    path_join(path_join(root, project), request_file_name(id))
}

/// The request id that a file of this name holds: its name without the extension, when it
/// has the extension and something before it.
pub open spec fn request_id_of(name: Seq<char>) -> Option<Seq<char>> {
    let n = REQUEST_FILE_SUFFIX@.len();
    if name.len() > n && name.subrange(name.len() - n, name.len() as int) == REQUEST_FILE_SUFFIX@ {
        Some(name.subrange(0, name.len() - n))
    } else {
        None
    }
}

/// The request ids that the files named `names` hold, in the order of `names`.
pub open spec fn request_ids(names: Seq<Seq<char>>) -> Seq<Seq<char>>
    decreases names.len(),
{
    if names.len() == 0 {
        Seq::empty()
    } else {
        let before = request_ids(names.drop_last());
        match request_id_of(names.last()) {
            Some(id) => before.push(id),
            None => before,
        }
    }
}

/// The names of a list of projects.
pub open spec fn project_names(ps: Seq<Project>) -> Seq<Seq<char>> {
    ps.map_values(|p: Project| p.name@)
}

/// What loading the file at `path`, holding `text`, gives: the request it holds, or the
/// parse error together with the path.
pub open spec fn load_outcome(path: Seq<char>, text: Seq<char>) -> Result<RequestView, (Seq<char>, ParseError)> {
    match decode(text) {
        Ok(d) => Ok(d),
        Err(e) => Err((path, e)),
    }
}

/// `name` inside the directory `dir`, joined with `/`.
///
/// Names are used as they are: unlike `PathBuf::join`, an absolute `name` does not replace
/// `dir`, and a name holding `/` or `..` reaches outside `dir`; no name is checked.
pub fn join_path(dir: &str, name: &str) -> (r: String)
    ensures
        r@ == path_join(dir@, name@),
{
    proof {
        reveal_strlit("/");
    }
    let mut r = String::from_str(dir);
    r.append("/");
    r.append(name);
    r
}

/// Reads the text of the request file at `path`; a malformed one gives `Error::Parse` with
/// the path.
pub fn decode_request(path: &str, text: &str) -> (r: Result<Request, Error>)
    ensures
        match (r, load_outcome(path@, text@)) {
            (Ok(req), Ok(d)) => req@ == d,
            (Err(Error::Parse(p, e)), Err((q, f))) => p@ == q && e == f,
            _ => false,
        },
{
    match parse_http_file(text) {
        Ok(req) => Ok(req),
        Err(e) => Err(Error::Parse(String::from_str(path), e)),
    }
}

/// The sorted projects whose directories are named `dir_names`.
pub fn projects_from_names(dir_names: Vec<String>) -> (r: Vec<Project>)
    ensures
        sorted_texts(project_names(r@)),
        project_names(r@).to_multiset() == texts(dir_names@).to_multiset(),
{
    let sorted = sort_texts(dir_names);
    let mut r: Vec<Project> = Vec::new();
    let mut i: usize = 0;
    while i < sorted.len()
        invariant
            0 <= i <= sorted@.len(),
            project_names(r@) == texts(sorted@).take(i as int),
        decreases sorted@.len() - i,
    {
        let ghost before = r@;
        let p = Project::new(sorted[i].as_str());
        r.push(p);
        assert(project_names(r@) =~= project_names(before).push(sorted@[i as int]@));
        i = i + 1;
        assert(project_names(r@) =~= texts(sorted@).take(i as int));
    }
    assert(texts(sorted@).take(i as int) =~= texts(sorted@));
    r
}

/// The sorted ids of the requests that the files named `file_names` hold.
pub fn request_ids_from_names(file_names: Vec<String>) -> (r: Vec<String>)
    ensures
        sorted_texts(texts(r@)),
        texts(r@).to_multiset() == request_ids(texts(file_names@)).to_multiset(),
{
    let suffix = REQUEST_FILE_SUFFIX;
    let n = suffix.unicode_len();
    let mut ids: Vec<String> = Vec::new();
    let mut i: usize = 0;
    let ghost names = texts(file_names@);
    while i < file_names.len()
        invariant
            0 <= i <= file_names@.len(),
            names == texts(file_names@),
            n == REQUEST_FILE_SUFFIX@.len(),
            suffix@ == REQUEST_FILE_SUFFIX@,
            texts(ids@) == request_ids(names.take(i as int)),
        decreases file_names@.len() - i,
    {
        let name = file_names[i].as_str();
        let len = name.unicode_len();
        assert(names.take(i as int + 1).drop_last() =~= names.take(i as int));
        assert(names.take(i as int + 1).last() == name@);
        if len > n {
            let tail = name.substring_char(len - n, len);
            let tail_owned = String::from_str(tail);
            let suffix_owned = String::from_str(suffix);
            if tail_owned == suffix_owned {
                ids.push(String::from_str(name.substring_char(0, len - n)));
                assert(texts(ids@) =~= request_ids(names.take(i as int + 1)));
            }
        }
        i = i + 1;
    }
    assert(names.take(i as int) =~= names);
    sort_texts(ids)
}

/// The layout of the project store: one directory per project under a root directory.
pub struct FsProjectRepository {
    root: String,
}

impl View for FsProjectRepository {
    type V = Seq<char>;

    closed spec fn view(&self) -> Seq<char> {
        self.root@
    }
}

impl FsProjectRepository {
    pub fn new(root: &str) -> (r: FsProjectRepository)
        ensures
            r@ == root@,
    {
        FsProjectRepository { root: String::from_str(root) }
    }

    /// The root directory.
    pub fn root(&self) -> (r: &str)
        ensures
            r@ == self@,
    {
        self.root.as_str()
    }

    /// The directory of the project `name`.
    pub fn project_path(&self, name: &str) -> (r: String)
        ensures
            r@ == path_join(self@, name@),
    {
        join_path(self.root.as_str(), name)
    }

    /// The directory to create for a new project `name`, or `AlreadyExists` when `exists`
    /// says that it is there.
    pub fn create_target(&self, name: &str, exists: bool) -> (r: Result<String, Error>)
        ensures
            exists ==> (r matches Err(Error::AlreadyExists(n)) && n@ == name@),
            !exists ==> (r matches Ok(path) && path@ == path_join(self@, name@)),
    {
        if exists {
            Err(Error::AlreadyExists(String::from_str(name)))
        } else {
            Ok(self.project_path(name))
        }
    }
}

/// The layout of the request store: `<root>/<project>/<id>.http`.
pub struct FsRequestRepository {
    root: String,
}

impl View for FsRequestRepository {
    type V = Seq<char>;

    closed spec fn view(&self) -> Seq<char> {
        self.root@
    }
}

/// Where the request `request_id` of `project` is kept under `root`.
pub fn resolve_request_path(root: &str, project: &Project, request_id: &str) -> (r: String)
    ensures
        r@ == request_path(root@, project.name@, request_id@),
{
    let dir = join_path(root, project.name.as_str());
    let mut file = String::from_str(request_id);
    file.append(REQUEST_FILE_SUFFIX);
    join_path(dir.as_str(), file.as_str())
}

impl FsRequestRepository {
    pub fn new(root: &str) -> (r: FsRequestRepository)
        ensures
            r@ == root@,
    {
        FsRequestRepository { root: String::from_str(root) }
    }

    /// The directory of `project`, which saving creates when it is missing.
    pub fn project_dir(&self, project: &Project) -> (r: String)
        ensures
            r@ == path_join(self@, project.name@),
    {
        join_path(self.root.as_str(), project.name.as_str())
    }

    /// The file of the request `request_id` in `project`.
    pub fn resolve_path(&self, project: &Project, request_id: &str) -> (r: String)
        ensures
            r@ == request_path(self@, project.name@, request_id@),
    {
        resolve_request_path(self.root.as_str(), project, request_id)
    }
}

/// An editor run as an external program on the request's file.
pub struct SystemCommandEditor {
    root: String,
    program: String,
}

impl View for SystemCommandEditor {
    type V = (Seq<char>, Seq<char>);

    /// The root directory and the program.
    closed spec fn view(&self) -> (Seq<char>, Seq<char>) {
        (self.root@, self.program@)
    }
}

impl SystemCommandEditor {
    /// An editor over the store at `root` that runs `preference`, or the default editor
    /// where no preference is given.
    pub fn new(root: &str, preference: Option<String>) -> (r: SystemCommandEditor)
        ensures
            r@.0 == root@,
            r@.1 == match preference {
                Some(p) => p@,
                None => DEFAULT_EDITOR@,
            },
    {
        let program = match preference {
            Some(p) => p,
            None => String::from_str(DEFAULT_EDITOR),
        };
        SystemCommandEditor { root: String::from_str(root), program }
    }

    /// The program to run.
    pub fn program(&self) -> (r: &str)
        ensures
            r@ == self@.1,
    {
        self.program.as_str()
    }

    /// The file of the request `request_id` in `project`: the file the request store uses.
    pub fn resolve_path(&self, project: &Project, request_id: &str) -> (r: String)
        ensures
            r@ == request_path(self@.0, project.name@, request_id@),
    {
        resolve_request_path(self.root.as_str(), project, request_id)
    }

    /// The outcome of a run: `exit_ok` is `None` when the program could not be started,
    /// else whether it exited with success.
    pub fn outcome(&self, exit_ok: Option<bool>) -> (r: Result<(), Error>)
        ensures
            r is Ok <==> exit_ok == Some(true),
            exit_ok == Some(false) ==> (r matches Err(Error::EditorLaunch(m)) && m@
                == "Editor exited with non-zero status code"@),
            exit_ok is None ==> (r matches Err(Error::EditorLaunch(m)) && m@
                == "Failed to launch editor: "@ + self@.1),
    {
        match exit_ok {
            Some(true) => Ok(()),
            Some(false) => Err(Error::EditorLaunch(String::from_str("Editor exited with non-zero status code"))),
            None => {
                let mut m = String::from_str("Failed to launch editor: ");
                m.append(self.program.as_str());
                Err(Error::EditorLaunch(m))
            },
        }
    }
}

/// Listing a project store is safe when it is empty: no directory names give no projects.
pub proof fn lemma_no_directories_no_projects(r: Seq<Project>)
    requires
        project_names(r).to_multiset() == texts(Seq::<String>::empty()).to_multiset(),
    ensures
        r.len() == 0,
{
    assert(texts(Seq::<String>::empty()) =~= Seq::<Seq<char>>::empty());
    vstd::seq_lib::to_multiset_len(project_names(r));
    vstd::seq_lib::to_multiset_len(Seq::<Seq<char>>::empty());
    assert(project_names(r).len() == r.len());
}

/// Files without the request extension hold no requests.
pub proof fn lemma_no_request_files(names: Seq<Seq<char>>)
    requires
        forall|i: int| 0 <= i < names.len() ==> request_id_of(#[trigger] names[i]) is None,
    ensures
        request_ids(names) == Seq::<Seq<char>>::empty(),
    decreases names.len(),
{
    if names.len() > 0 {
        let t = names.drop_last();
        assert forall|i: int| 0 <= i < t.len() implies request_id_of(#[trigger] t[i]) is None by {
            assert(t[i] == names[i]);
        }
        lemma_no_request_files(t);
        assert(request_id_of(names[names.len() - 1]) is None);
    }
}

/// A model of the request files of a store: a map from path to text.
///
/// The facts below are about this model, not about a disk. They tie to the exec functions
/// through the names those functions' contracts use: `resolve_path` gives `request_path`,
/// `format_http_file` writes `encode`, `decode_request` reads as `load_outcome`. That a
/// write replaces a whole file, and that a read returns what was written, is the storage's
/// part.
pub type StoredFiles = Map<Seq<char>, Seq<char>>;

/// In the model, the files after saving `d` as `id` in `project`: its file holds the text of
/// `d` alone, whatever it held before.
pub open spec fn saved_files(
    files: StoredFiles,
    root: Seq<char>,
    project: Seq<char>,
    id: Seq<char>,
    d: RequestView,
) -> StoredFiles {
    files.insert(request_path(root, project, id), encode(d))
}

/// In the model, what loading `id` of `project` gives, when its file is there.
pub open spec fn loaded(files: StoredFiles, root: Seq<char>, project: Seq<char>, id: Seq<char>) -> Result<
    RequestView,
    (Seq<char>, ParseError),
> {
    let path = request_path(root, project, id);
    load_outcome(path, files[path])
}

/// In a model of the project directories as a set of paths, the directories after creating
/// `name`: a new one is added, an existing one is
/// left as it is.
pub open spec fn after_create(dirs: Set<Seq<char>>, root: Seq<char>, name: Seq<char>) -> Set<
    Seq<char>,
> {
    dirs.insert(path_join(root, name))
}

/// In the model of the files: saving a request and then loading it gives the request back.
pub proof fn lemma_save_then_load(
    files: StoredFiles,
    root: Seq<char>,
    project: Seq<char>,
    id: Seq<char>,
    d: RequestView,
)
    requires
        round_trips(d),
    ensures
        saved_files(files, root, project, id, d).contains_key(request_path(root, project, id)),
        loaded(saved_files(files, root, project, id, d), root, project, id) == Ok::<RequestView, (Seq<char>, ParseError)>(
            d,
        ),
{
    lemma_round_trip(d);
}

/// In the model of the files: saving twice under one id replaces the first request, and
/// loading gives the second alone.
pub proof fn lemma_save_overwrites(
    files: StoredFiles,
    root: Seq<char>,
    project: Seq<char>,
    id: Seq<char>,
    first: RequestView,
    second: RequestView,
)
    requires
        round_trips(second),
    ensures
        saved_files(saved_files(files, root, project, id, first), root, project, id, second) == saved_files(
            files,
            root,
            project,
            id,
            second,
        ),
        loaded(
            saved_files(saved_files(files, root, project, id, first), root, project, id, second),
            root,
            project,
            id,
        ) == Ok::<RequestView, (Seq<char>, ParseError)>(second),
{
    lemma_round_trip(second);
    assert(saved_files(saved_files(files, root, project, id, first), root, project, id, second) =~= saved_files(
        files,
        root,
        project,
        id,
        second,
    ));
}

/// In the model of the directories: creating a project twice, the second time its directory is there, so the creation is
/// refused and the directories stay as the first creation left them.
pub proof fn lemma_duplicate_project_rejected(dirs: Set<Seq<char>>, root: Seq<char>, name: Seq<char>)
    ensures
        after_create(dirs, root, name).contains(path_join(root, name)),
        after_create(after_create(dirs, root, name), root, name) == after_create(dirs, root, name),
{
    assert(after_create(after_create(dirs, root, name), root, name) =~= after_create(
        dirs,
        root,
        name,
    ));
}

} // verus!
