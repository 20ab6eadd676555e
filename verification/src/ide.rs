//! Which project the editor opens when it starts.

use vstd::prelude::*;

verus! {

/// What the project manager tells of a project.
#[derive(Clone, Debug, PartialEq, Eq)]
pub struct ProjectMetadata {
    pub id: u128,
    pub name: String,
    pub last_opened: Option<String>,
}

/// Error raised when project with given name was not found.
#[derive(Clone, Debug, PartialEq, Eq)]
pub struct ProjectNotFound {
    pub name: String,
}

/// What is to be done to get a project.
#[derive(Clone, Debug, PartialEq, Eq)]
pub enum ProjectChoice {
    /// The project is there and is opened.
    Open(ProjectMetadata),
    /// A project of the given name is to be made.
    Create(String),
}

/// The position of the first among the first `n` projects that has the
/// name, if there is one.
pub open spec fn position_of_project(projects: Seq<ProjectMetadata>, name: Seq<char>, n: int) -> Option<int>
    decreases n,
{
    if n <= 0 {
        None
    } else {
        match position_of_project(projects, name, n - 1) {
            Some(i) => Some(i),
            None => if projects[n - 1].name@ == name {
                Some(n - 1)
            } else {
                None
            },
        }
    }
}

/// What the project manager tells of a project, as plain values.
pub open spec fn metadata_of(project: ProjectMetadata) -> (u128, Seq<char>, Option<Seq<char>>) {
    (
        project.id,
        project.name@,
        match project.last_opened {
            Some(time) => Some(time@),
            None => None,
        },
    )
}

impl ProjectMetadata {
    /// A copy.
    pub fn duplicate(&self) -> (r: Self)
        ensures
            metadata_of(r) == metadata_of(*self),
    {
        let last_opened = match &self.last_opened {
            Some(time) => Some(time.clone()),
            None => None,
        };
        ProjectMetadata { id: self.id, name: self.name.clone(), last_opened }
    }

    /// What is known of a project that was just made: it was not opened
    /// yet.
    pub fn created(id: u128, name: &str) -> (r: Self)
        ensures
            r.id == id,
            r.name@ == name@,
            r.last_opened is None,
    {
        ProjectMetadata { id, name: String::from_str(name), last_opened: None }
    }
}

/// The first project of the list with the given name.
pub fn lookup_project(projects: &Vec<ProjectMetadata>, project_name: &str) -> (r: Result<
    ProjectMetadata,
    ProjectNotFound,
>)
    ensures
        match position_of_project(projects@, project_name@, projects@.len() as int) {
            Some(i) => r matches Ok(project) && metadata_of(project) == metadata_of(projects@[i]),
            None => r matches Err(e) && e.name@ == project_name@,
        },
{
    let mut i: usize = 0;
    while i < projects.len()
        invariant
            i <= projects.len(),
            position_of_project(projects@, project_name@, i as int) is None,
        decreases projects.len() - i,
    {
        if projects[i].name.as_str().unicode_len() == project_name.unicode_len() && same_text(
            projects[i].name.as_str(),
            project_name,
        ) {
            proof {
                lemma_project_found(projects@, project_name@, i as int, projects@.len() as int);
            }
            return Ok(projects[i].duplicate());
        }
        i = i + 1;
    }
    Err(ProjectNotFound { name: String::from_str(project_name) })
}

/// Whether two texts of one length are one text.
fn same_text(a: &str, b: &str) -> (r: bool)
    requires
        a@.len() == b@.len(),
    ensures
        r == (a@ == b@),
{
    let n = a.unicode_len();
    let mut k: usize = 0;
    while k < n
        invariant
            n == a@.len(),
            n == b@.len(),
            k <= n,
            forall|j: int| 0 <= j < k ==> a@[j] == b@[j],
        decreases n - k,
    {
        if a.get_char(k) != b.get_char(k) {
            return false;
        }
        k = k + 1;
    }
    proof {
        assert(a@ =~= b@);
    }
    true
}

/// Where a project with the name stands at position `i` and none stands
/// before it, the position of the name is `i`.
pub proof fn lemma_project_found(projects: Seq<ProjectMetadata>, name: Seq<char>, i: int, n: int)
    requires
        0 <= i < n <= projects.len(),
        projects[i].name@ == name,
        position_of_project(projects, name, i) is None,
    ensures
        position_of_project(projects, name, n) == Some(i),
    decreases n - i,
{
    if n > i + 1 {
        lemma_project_found(projects, name, i, n - 1);
    }
}

/// The project with the given name, or the order to make one if the list of
/// the project manager has none.
pub fn get_project_or_create_new(projects: &Vec<ProjectMetadata>, project_name: &str) -> (r: ProjectChoice)
    ensures
        match position_of_project(projects@, project_name@, projects@.len() as int) {
            Some(i) => r matches ProjectChoice::Open(project) && metadata_of(project) == metadata_of(projects@[i]),
            None => r matches ProjectChoice::Create(name) && name@ == project_name@,
        },
{
    match lookup_project(projects, project_name) {
        Ok(project) => ProjectChoice::Open(project),
        Err(_) => ProjectChoice::Create(String::from_str(project_name)),
    }
}

/// The project that was opened last, which is the last of the list that the
/// project manager gives when it is asked for one project, or the order to
/// make a project of the given name if the list is empty.
pub fn get_most_recent_project_or_create_new(projects: Vec<ProjectMetadata>, project_name: &str) -> (r:
    ProjectChoice)
    ensures
        projects@.len() > 0 ==> r == ProjectChoice::Open(projects@.last()),
        projects@.len() == 0 ==> (r matches ProjectChoice::Create(name) && name@ == project_name@),
{
    let mut projects = projects;
    match projects.pop() {
        Some(project) => ProjectChoice::Open(project),
        None => ProjectChoice::Create(String::from_str(project_name)),
    }
}

} // verus!
