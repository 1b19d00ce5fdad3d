use moxide::directories::Directories;
use moxide::launch::{
    directory_start_plan, launch, resolve_cmd_name, resolve_dir_path, template_start_plan,
    LaunchPlan, NewSessionSpec, SessionSpec,
};
use moxide::templates::{Template, TmuxOp, Window};

fn names(list: &[&str]) -> Vec<String> {
    list.iter().map(|s| s.to_string()).collect()
}

fn window(name: Option<&str>, layout: Option<&str>, panes: &[&str]) -> Window {
    Window {
        name: name.map(|s| s.to_string()),
        layout: layout.map(|s| s.to_string()),
        panes: panes.iter().map(|s| s.to_string()).collect(),
    }
}

#[test]
fn launch_reuses_running_session_without_any_ops() {
    let session = SessionSpec {
        name: "x".to_string(),
        working_dir: Some("/w".to_string()),
        windows: vec![window(None, None, &["cmd"])],
    };
    let plan = launch(&session, true, true, &names(&["x", "y"]));
    assert_eq!(plan, LaunchPlan::Reuse { session_name: "x".to_string(), attach: true });

    let detached = launch(&session, true, false, &names(&["x"]));
    assert_eq!(detached, LaunchPlan::Reuse { session_name: "x".to_string(), attach: false });
}

#[test]
fn launch_rebuilds_under_renamed_session_when_always_new() {
    let session = SessionSpec {
        name: "x".to_string(),
        working_dir: None,
        windows: vec![window(None, None, &["cmd"])],
    };
    let plan = launch(&session, false, true, &names(&["x"]));
    assert_eq!(
        plan,
        LaunchPlan::Create {
            new_session: NewSessionSpec {
                session_name: "x-1".to_string(),
                window_name: None,
                start_directory: None,
            },
            attach: true,
            ops: vec![TmuxOp::SendKeys { keys: "cmd\r".to_string() }],
        }
    );
}

#[test]
fn launch_creates_fresh_session_under_own_name() {
    let session = SessionSpec {
        name: "x".to_string(),
        working_dir: Some("/w".to_string()),
        windows: vec![window(Some("main"), None, &["a"])],
    };
    let plan = launch(&session, true, false, &names(&["other"]));
    assert_eq!(
        plan,
        LaunchPlan::Create {
            new_session: NewSessionSpec {
                session_name: "x".to_string(),
                window_name: None,
                start_directory: Some("/w".to_string()),
            },
            attach: false,
            ops: vec![
                TmuxOp::RenameWindow { name: "main".to_string() },
                TmuxOp::SendKeys { keys: "a\r".to_string() },
            ],
        }
    );
}

#[test]
fn resolve_cmd_name_prefers_override_then_directory() {
    let running = names(&[]);
    let path = "/abs/proj".to_string();
    let (spec, name) = resolve_cmd_name(
        Some(&path),
        Some("given".to_string()),
        "tpl".to_string(),
        &running,
    );
    assert_eq!(name, "given".to_string());
    assert_eq!(spec.session_name, "given".to_string());
    assert_eq!(spec.start_directory, Some("/abs/proj".to_string()));
    assert_eq!(spec.window_name, None);

    let (spec, name) = resolve_cmd_name(Some(&path), None, "tpl".to_string(), &running);
    assert_eq!(name, "proj".to_string());
    assert_eq!(spec.start_directory, Some("/abs/proj".to_string()));

    let (spec, name) = resolve_cmd_name(None, None, "tpl".to_string(), &running);
    assert_eq!(name, "tpl".to_string());
    assert_eq!(spec.start_directory, None);
}

#[test]
fn resolve_cmd_name_avoids_taken_names() {
    let running = names(&["proj"]);
    let path = "/abs/proj".to_string();
    let (_, name) = resolve_cmd_name(Some(&path), None, "tpl".to_string(), &running);
    assert_eq!(name, "proj-1".to_string());
}

#[test]
fn template_start_reuses_running_directory_session() {
    let template = Template {
        name: "tpl".to_string(),
        hidden: None,
        windows: vec![window(None, None, &["cmd"])],
    };
    let path = "/abs/proj".to_string();
    let plan = template_start_plan(&template, Some(&path), None, false, false, &names(&["proj"]));
    assert_eq!(plan, LaunchPlan::Reuse { session_name: "proj".to_string(), attach: true });
}

#[test]
fn template_start_builds_new_session_when_asked() {
    let template = Template {
        name: "tpl".to_string(),
        hidden: None,
        windows: vec![window(None, None, &["cmd"])],
    };
    let path = "/abs/proj".to_string();
    let plan = template_start_plan(&template, Some(&path), None, true, true, &names(&["proj"]));
    assert_eq!(
        plan,
        LaunchPlan::Create {
            new_session: NewSessionSpec {
                session_name: "proj-1".to_string(),
                window_name: None,
                start_directory: Some("/abs/proj".to_string()),
            },
            attach: false,
            ops: vec![TmuxOp::SendKeys { keys: "cmd\r".to_string() }],
        }
    );
}

#[test]
fn template_start_without_directory_uses_template_name() {
    let template = Template { name: "tpl".to_string(), hidden: None, windows: vec![] };
    let plan = template_start_plan(&template, None, None, false, false, &names(&[]));
    assert_eq!(
        plan,
        LaunchPlan::Create {
            new_session: NewSessionSpec {
                session_name: "tpl".to_string(),
                window_name: None,
                start_directory: None,
            },
            attach: true,
            ops: vec![],
        }
    );
}

#[test]
fn directory_start_creates_or_reuses() {
    let name = "proj".to_string();
    let path = "/abs/proj".to_string();

    let plan = directory_start_plan(&name, &path, false, false, &names(&[]));
    assert_eq!(
        plan,
        LaunchPlan::Create {
            new_session: NewSessionSpec {
                session_name: "proj".to_string(),
                window_name: Some("proj".to_string()),
                start_directory: Some("/abs/proj".to_string()),
            },
            attach: true,
            ops: vec![],
        }
    );

    let plan = directory_start_plan(&name, &path, false, false, &names(&["proj"]));
    assert_eq!(plan, LaunchPlan::Reuse { session_name: "proj".to_string(), attach: true });

    let plan = directory_start_plan(&name, &path, true, true, &names(&["proj"]));
    match plan {
        LaunchPlan::Create { new_session, attach, ops } => {
            assert_eq!(new_session.session_name, "proj".to_string());
            assert!(!attach);
            assert!(ops.is_empty());
        },
        other => panic!("expected a create plan, got {:?}", other),
    }
}

#[test]
fn resolve_dir_path_alias_and_raw() {
    let dirs = Directories(vec![("docs".to_string(), "~/Documents".to_string())]);
    let abs = "/home/u/Documents".to_string();

    let (name, path) = resolve_dir_path(&"docs".to_string(), None, &dirs, &abs);
    assert_eq!(name, "docs".to_string());
    assert_eq!(path, "/home/u/Documents".to_string());

    let (name, _) = resolve_dir_path(
        &"docs".to_string(),
        Some("override".to_string()),
        &dirs,
        &abs,
    );
    assert_eq!(name, "override".to_string());

    let abs_raw = "/tmp/scratch".to_string();
    let (name, path) = resolve_dir_path(&"/tmp/scratch".to_string(), None, &dirs, &abs_raw);
    assert_eq!(name, "scratch".to_string());
    assert_eq!(path, "/tmp/scratch".to_string());
}

#[test]
fn template_start_queries_the_overridden_name() {
    // a session under the directory-derived name runs, but the explicit
    // override is the session name: it is free, so the launch creates
    let template = Template {
        name: "tpl".to_string(),
        hidden: None,
        windows: vec![window(None, None, &["cmd"])],
    };
    let path = "/abs/proj".to_string();
    let plan = template_start_plan(
        &template,
        Some(&path),
        Some("given".to_string()),
        false,
        false,
        &names(&["proj"]),
    );
    assert_eq!(
        plan,
        LaunchPlan::Create {
            new_session: NewSessionSpec {
                session_name: "given".to_string(),
                window_name: None,
                start_directory: Some("/abs/proj".to_string()),
            },
            attach: true,
            ops: vec![TmuxOp::SendKeys { keys: "cmd\r".to_string() }],
        }
    );

    // and a running session under the override itself is reused
    let plan = template_start_plan(
        &template,
        Some(&path),
        Some("given".to_string()),
        false,
        false,
        &names(&["proj", "given"]),
    );
    assert_eq!(plan, LaunchPlan::Reuse { session_name: "given".to_string(), attach: true });
}
