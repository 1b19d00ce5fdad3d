//! Projects: a named working context binding a root directory to either a
//! template reference or an inline window list, together with the expansion
//! of that setup into a concrete window list.
use vstd::prelude::*;

use crate::templates::{clone_opt_string, find_template, Template, Window, WindowView};

verus! {

/// How a project describes its windows: by the name of a template, resolved
/// lazily, or by an inline ordered window list.  Exactly one variant exists
/// by construction.
#[derive(Debug, PartialEq, Eq)]
pub enum ProjectSetup {
    Template(String),
    Windows { windows: Vec<Window> },
}

/// The mathematical shadow of `ProjectSetup`.
pub enum SetupView {
    Template(Seq<char>),
    Windows(Seq<WindowView>),
}

impl DeepView for ProjectSetup {
    type V = SetupView;

    open spec fn deep_view(&self) -> SetupView {
        match self {
            ProjectSetup::Template(n) => SetupView::Template(n.deep_view()),
            ProjectSetup::Windows { windows } => SetupView::Windows(windows.deep_view()),
        }
    }
}

/// A named working context: a root directory and a window setup.
#[derive(Debug, PartialEq, Eq)]
pub struct Project {
    pub name: String,
    pub root_dir: String,
    pub setup: ProjectSetup,
}

/// The mathematical shadow of `Project`.
pub struct ProjectView {
    pub name: Seq<char>,
    pub root_dir: Seq<char>,
    pub setup: SetupView,
}

impl DeepView for Project {
    type V = ProjectView;

    open spec fn deep_view(&self) -> ProjectView {
        ProjectView {
            name: self.name.deep_view(),
            root_dir: self.root_dir.deep_view(),
            setup: self.setup.deep_view(),
        }
    }
}

/// A malformed project record: one with neither a `template` reference nor
/// inline `windows`, or one carrying both.  Either way a fatal
/// configuration error — exactly one of the two must be present.
#[derive(Debug, PartialEq, Eq)]
pub enum ProjectConfigError {
    MissingSetup,
    ConflictingSetup,
}

impl Project {
    /// Builds a project from the fields of a raw configuration record.
    /// Exactly one of `template` and `windows` must be present: a record
    /// carrying neither, or both, is rejected.  Names, paths and window
    /// lists are taken over exactly as given, in order, untrimmed.
    pub fn from_raw(
        name: String,
        root_dir: String,
        template: Option<String>,
        windows: Option<Vec<Window>>,
    ) -> (r: Result<Project, ProjectConfigError>)
        ensures
            match (template, windows) {
                (Some(t), None) => r == Ok::<Project, ProjectConfigError>(
                    Project { name, root_dir, setup: ProjectSetup::Template(t) },
                ),
                (None, Some(w)) => r == Ok::<Project, ProjectConfigError>(
                    Project { name, root_dir, setup: ProjectSetup::Windows { windows: w } },
                ),
                (Some(_), Some(_)) => r == Err::<Project, ProjectConfigError>(
                    ProjectConfigError::ConflictingSetup,
                ),
                (None, None) => r == Err::<Project, ProjectConfigError>(
                    ProjectConfigError::MissingSetup,
                ),
            },
    {
        match (template, windows) {
            (Some(t), None) => Ok(Project { name, root_dir, setup: ProjectSetup::Template(t) }),
            (None, Some(w)) => Ok(
                Project { name, root_dir, setup: ProjectSetup::Windows { windows: w } },
            ),
            (Some(_), Some(_)) => Err(ProjectConfigError::ConflictingSetup),
            (None, None) => Err(ProjectConfigError::MissingSetup),
        }
    }
}

/// Index of the first project of `projects` whose name is `name`, or `None`
/// when no project of that name exists.
pub fn find_project(name: &String, projects: &Vec<Project>) -> (r: Option<usize>)
    ensures
        match r {
            Some(i) => i < projects@.len() && projects.deep_view()[i as int].name == name@
                && forall|j: int| 0 <= j < i ==> projects.deep_view()[j].name != name@,
            None => forall|j: int|
                0 <= j < projects@.len() ==> projects.deep_view()[j].name != name@,
        },
{
    let mut i: usize = 0;
    while i < projects.len()
        invariant
            0 <= i <= projects@.len(),
            projects.deep_view().len() == projects@.len(),
            forall|j: int| 0 <= j < i ==> projects.deep_view()[j].name != name@,
        decreases projects@.len() - i,
    {
        if projects[i].name == *name {
            return Some(i);
        }
        i = i + 1;
    }
    None
}

/// A `ProjectSetup` naming a template that the configuration does not hold:
/// a fatal lookup error, never treated as an empty window list.
#[derive(Debug, PartialEq, Eq)]
pub struct TemplateNotFound {
    pub name: String,
}

/// A copy of a window list, order and text preserved exactly.
pub fn clone_windows(ws: &Vec<Window>) -> (r: Vec<Window>)
    ensures
        r.deep_view() == ws.deep_view(),
{
    let mut out: Vec<Window> = Vec::new();
    let mut i: usize = 0;
    proof {
        assert(out.deep_view() =~= ws.deep_view().take(0));
    }
    while i < ws.len()
        invariant
            0 <= i <= ws@.len(),
            ws.deep_view().len() == ws@.len(),
            out.deep_view() == ws.deep_view().take(i as int),
        decreases ws@.len() - i,
    {
        let w = &ws[i];
        let copy = Window {
            name: clone_opt_string(w.name.as_ref()),
            layout: clone_opt_string(w.layout.as_ref()),
            panes: clone_string_vec(&w.panes),
        };
        let ghost before = out.deep_view();
        out.push(copy);
        proof {
            assert(out.deep_view() =~= before.push(ws.deep_view()[i as int]));
            assert(before.push(ws.deep_view()[i as int]) =~= ws.deep_view().take(i + 1));
        }
        i = i + 1;
    }
    proof {
        assert(ws.deep_view().take(ws.deep_view().len() as int) =~= ws.deep_view());
    }
    out
}

/// A copy of a string list, order and text preserved exactly.
pub fn clone_string_vec(v: &Vec<String>) -> (r: Vec<String>)
    ensures
        r.deep_view() == v.deep_view(),
{
    let mut out: Vec<String> = Vec::new();
    let mut i: usize = 0;
    proof {
        assert(out.deep_view() =~= v.deep_view().take(0));
    }
    while i < v.len()
        invariant
            0 <= i <= v@.len(),
            v.deep_view().len() == v@.len(),
            out.deep_view() == v.deep_view().take(i as int),
        decreases v@.len() - i,
    {
        let ghost before = out.deep_view();
        out.push(v[i].clone());
        proof {
            assert(out.deep_view() =~= before.push(v.deep_view()[i as int]));
            assert(before.push(v.deep_view()[i as int]) =~= v.deep_view().take(i + 1));
        }
        i = i + 1;
    }
    proof {
        assert(v.deep_view().take(v.deep_view().len() as int) =~= v.deep_view());
    }
    out
}

/// Expands a project setup into its concrete window list: an inline window
/// list is returned unchanged, and a template reference is resolved against
/// `templates`, failing — never falling back to an empty list — when no
/// template of that name exists.
pub fn expand_setup(setup: ProjectSetup, templates: &Vec<Template>) -> (r: Result<
    Vec<Window>,
    TemplateNotFound,
>)
    ensures
        match setup {
            ProjectSetup::Windows { windows } => r == Ok::<Vec<Window>, TemplateNotFound>(windows),
            ProjectSetup::Template(n) => match r {
                Ok(w) => exists|i: int|
                    0 <= i < templates@.len() && templates.deep_view()[i].name == n@ && (
                    forall|j: int| 0 <= j < i ==> templates.deep_view()[j].name != n@)
                        && w.deep_view() == #[trigger] templates.deep_view()[i].windows,
                Err(e) => e.name@ == n@ && forall|j: int|
                    0 <= j < templates@.len() ==> templates.deep_view()[j].name != n@,
            },
        },
{
    match setup {
        ProjectSetup::Windows { windows } => Ok(windows),
        ProjectSetup::Template(n) => match find_template(&n, templates) {
            Some(i) => {
                let w = clone_windows(&templates[i].windows);
                proof {
                    assert(0 <= i < templates@.len() && templates.deep_view()[i as int].name
                        == n@ && (forall|j: int|
                        0 <= j < i ==> templates.deep_view()[j].name != n@) && w.deep_view()
                        == templates.deep_view()[i as int].windows);
                }
                Ok(w)
            },
            None => Err(TemplateNotFound { name: n }),
        },
    }
}

} // verus!
