//! The session launcher's decision logic: whether to reuse a running
//! session or to create a fresh one, under which name, in which directory,
//! and with which batch of abstract multiplexer operations.  The caller
//! performs the operations; nothing here touches the multiplexer.
use vstd::prelude::*;

use crate::directories::{lookup_spec, Directories};
use crate::naming::{is_first_free_name, unique_name};
use crate::strutil::{dir_name, dir_name_spec};
use crate::templates::{
    apply_windows, clone_opt_string, windows_ops, Template, TmuxOp, Window,
};

verus! {

/// A fully resolved, ready-to-synthesize session description: its name, an
/// optional working directory, and its ordered window list.
pub struct SessionSpec {
    pub name: String,
    pub working_dir: Option<String>,
    pub windows: Vec<Window>,
}

/// The arguments of the one session-creating multiplexer call: the session
/// is always created detached.
#[derive(Debug, PartialEq, Eq)]
pub struct NewSessionSpec {
    pub session_name: String,
    pub window_name: Option<String>,
    pub start_directory: Option<String>,
}

/// What a launch does: reuse a running session (at most attaching to it),
/// or create one and run a batch of window/pane operations.  For `Create`
/// the caller submits one ordered batch: the session creation, then `ops`,
/// then the attach when `attach` is set.
#[derive(Debug, PartialEq, Eq)]
pub enum LaunchPlan {
    Reuse { session_name: String, attach: bool },
    Create { new_session: NewSessionSpec, attach: bool, ops: Vec<TmuxOp> },
}

/// The base name that `resolve_cmd_name` starts from: an explicit override
/// wins; otherwise a resolved directory names the session after its final
/// segment; otherwise the fallback (the template's name) stands.
pub open spec fn cmd_base_name(
    path: Option<Seq<char>>,
    name: Option<Seq<char>>,
    fallback: Seq<char>,
) -> Seq<char> {
    match name {
        Some(n) => n,
        None => match path {
            Some(p) => dir_name_spec(p),
            None => fallback,
        },
    }
}

/// The creation command and collision-free name for a fresh session: the
/// base name (override, else directory segment, else `fallback`) gets a
/// numeric suffix until it is not among `running`, and the session starts
/// in `path` when one is given.
pub fn resolve_cmd_name(
    path: Option<&String>,
    name: Option<String>,
    fallback: String,
    running: &Vec<String>,
) -> (r: (NewSessionSpec, String))
    requires
        running@.len() < u64::MAX,
    ensures
        is_first_free_name(
            r.1@,
            cmd_base_name(path.deep_view(), name.deep_view(), fallback@),
            running.deep_view(),
        ),
        !running.deep_view().contains(r.1@),
        r.0.session_name@ == r.1@,
        r.0.window_name is None,
        r.0.start_directory.deep_view() == path.deep_view(),
{
    let base: String = match name {
        Some(n) => n,
        None => match path {
            Some(p) => dir_name(p.as_str()),
            None => fallback,
        },
    };
    let session_name = unique_name(&base, running);
    let new_session = NewSessionSpec {
        session_name: session_name.clone(),
        window_name: None,
        start_directory: clone_opt_string(path),
    };
    (new_session, session_name)
}

/// The launch decision of the session launcher.  A running session of the
/// wanted name is reused — no window or pane operation at all — unless a
/// new session is insisted on; otherwise a session under a collision-free
/// name is created with the working directory, and the full command-builder
/// output runs as one ordered batch.
pub fn launch(
    session: &SessionSpec,
    reuse_existing: bool,
    attach: bool,
    running: &Vec<String>,
) -> (r: LaunchPlan)
    requires
        running@.len() < u64::MAX,
    ensures
        (running.deep_view().contains(session.name@) && reuse_existing) ==> (r matches
            LaunchPlan::Reuse { session_name, attach: a } && session_name@ == session.name@ && a
            == attach),
        !(running.deep_view().contains(session.name@) && reuse_existing) ==> (r matches
            LaunchPlan::Create { new_session, attach: a, ops } && a == attach
            && new_session.window_name is None && new_session.start_directory.deep_view()
            == session.working_dir.deep_view() && is_first_free_name(
            new_session.session_name@,
            session.name@,
            running.deep_view(),
        ) && ops.deep_view() == windows_ops(
            session.windows.deep_view(),
            session.working_dir.deep_view(),
        )),
{
    let exists_now = crate::naming::contains_name(running, &session.name);
    if exists_now && reuse_existing {
        LaunchPlan::Reuse { session_name: session.name.clone(), attach }
    } else {
        let session_name = unique_name(&session.name, running);
        let empty: Vec<TmuxOp> = Vec::new();
        proof {
            assert(empty.deep_view() =~= Seq::<crate::templates::OpView>::empty());
        }
        let ops = apply_windows(empty, &session.windows, session.working_dir.as_ref());
        proof {
            assert(Seq::<crate::templates::OpView>::empty() + windows_ops(
                session.windows.deep_view(),
                session.working_dir.deep_view(),
            ) =~= windows_ops(session.windows.deep_view(), session.working_dir.deep_view()));
        }
        LaunchPlan::Create {
            new_session: NewSessionSpec {
                session_name,
                window_name: None,
                start_directory: clone_opt_string(session.working_dir.as_ref()),
            },
            attach,
            ops,
        }
    }
}

/// The launch decision for starting a template: the session name is fixed
/// first — an explicit override wins, else the resolved directory's final
/// segment, else the template's own name — and a running session under
/// exactly that name is reused (attaching unless detached) unless a new
/// session is insisted on; otherwise a fresh session is created via
/// `resolve_cmd_name` and the template's windows are built in it.
pub fn template_start_plan(
    template: &Template,
    resolved_path: Option<&String>,
    name_override: Option<String>,
    detached: bool,
    always_new_session: bool,
    running: &Vec<String>,
) -> (r: LaunchPlan)
    requires
        running@.len() < u64::MAX,
    ensures
        ({
            let base = cmd_base_name(
                resolved_path.deep_view(),
                name_override.deep_view(),
                template.name@,
            );
            &&& (running.deep_view().contains(base) && !always_new_session) ==> (r matches
                LaunchPlan::Reuse { session_name, attach } && session_name@ == base && attach == !detached)
            &&& !(running.deep_view().contains(base) && !always_new_session) ==> (r matches
                LaunchPlan::Create { new_session, attach, ops } && attach == !detached
                && new_session.window_name is None && new_session.start_directory.deep_view()
                == resolved_path.deep_view() && is_first_free_name(
                new_session.session_name@,
                base,
                running.deep_view(),
            ) && ops.deep_view() == windows_ops(
                template.windows.deep_view(),
                resolved_path.deep_view(),
            ))
        }),
{
    let name: String = match &name_override {
        Some(n) => n.clone(),
        None => match resolved_path {
            Some(p) => dir_name(p.as_str()),
            None => template.name.clone(),
        },
    };
    let exists_now = crate::naming::contains_name(running, &name);
    if exists_now && !always_new_session {
        LaunchPlan::Reuse { session_name: name, attach: !detached }
    } else {
        let pair = resolve_cmd_name(resolved_path, name_override, template.name.clone(), running);
        let empty: Vec<TmuxOp> = Vec::new();
        proof {
            assert(empty.deep_view() =~= Seq::<crate::templates::OpView>::empty());
        }
        let ops = apply_windows(empty, &template.windows, resolved_path);
        proof {
            assert(Seq::<crate::templates::OpView>::empty() + windows_ops(
                template.windows.deep_view(),
                resolved_path.deep_view(),
            ) =~= windows_ops(template.windows.deep_view(), resolved_path.deep_view()));
        }
        LaunchPlan::Create { new_session: pair.0, attach: !detached, ops }
    }
}

/// The launch decision for starting a directory session: the session keeps
/// the resolved name — no numeric suffix — and names its first window after
/// itself; it is created whenever a new session is insisted on or none of
/// that name runs, and is attached to unless detached.
pub fn directory_start_plan(
    name: &String,
    path: &String,
    detached: bool,
    always_new_session: bool,
    running: &Vec<String>,
) -> (r: LaunchPlan)
    ensures
        (always_new_session || !running.deep_view().contains(name@)) ==> (r matches
            LaunchPlan::Create { new_session, attach, ops } && attach == !detached
            && new_session.session_name@ == name@ && new_session.window_name.deep_view()
            == Some(name@) && new_session.start_directory.deep_view() == Some(path@)
            && ops.deep_view() == Seq::<crate::templates::OpView>::empty()),
        !(always_new_session || !running.deep_view().contains(name@)) ==> (r matches
            LaunchPlan::Reuse { session_name, attach } && session_name@ == name@ && attach
            == !detached),
{
    let exists_now = crate::naming::contains_name(running, name);
    if always_new_session || !exists_now {
        let empty: Vec<TmuxOp> = Vec::new();
        proof {
            assert(empty.deep_view() =~= Seq::<crate::templates::OpView>::empty());
        }
        LaunchPlan::Create {
            new_session: NewSessionSpec {
                session_name: name.clone(),
                window_name: Some(name.clone()),
                start_directory: Some(path.clone()),
            },
            attach: !detached,
            ops: empty,
        }
    } else {
        LaunchPlan::Reuse { session_name: name.clone(), attach: !detached }
    }
}

/// The directory a start token denotes, which the caller then absolutizes:
/// the configured path of the alias when the token is a configured alias,
/// the token itself read as a path otherwise.
pub fn resolve_start_dir(token: &String, dirs: &Directories) -> (r: String)
    ensures
        match lookup_spec(dirs@, token@) {
            Some(p) => r@ == p,
            None => r@ == token@,
        },
{
    match dirs.get(token.as_str()) {
        Some(p) => p.clone(),
        None => token.clone(),
    }
}

/// The session name and path a directory start resolves to: an alias's
/// configured path wins over reading the token as a path, an explicit name
/// override wins over the alias name, and a raw path is named after the
/// final segment of its absolutized form.  `abs_path` is the absolutized
/// form of `resolve_start_dir(token, dirs)` — the alias's configured path
/// when the token is an alias, the token itself otherwise — which only the
/// filesystem collaborator can compute.
pub fn resolve_dir_path(
    token: &String,
    name_override: Option<String>,
    dirs: &Directories,
    abs_path: &String,
) -> (r: (String, String))
    ensures
        r.1@ == abs_path@,
        (lookup_spec(dirs@, token@) is Some) ==> r.0@ == (match name_override {
            Some(n) => n@,
            None => token@,
        }),
        (lookup_spec(dirs@, token@) is None) ==> r.0@ == (match name_override {
            Some(n) => n@,
            None => dir_name_spec(abs_path@),
        }),
{
    let found = dirs.get(token.as_str());
    let name: String = match found {
        Some(_) => match name_override {
            Some(n) => n,
            None => token.clone(),
        },
        None => match name_override {
            Some(n) => n,
            None => dir_name(abs_path.as_str()),
        },
    };
    (name, abs_path.clone())
}

} // verus!
