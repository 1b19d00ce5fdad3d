use moxide::projects::{
    expand_setup, find_project, Project, ProjectConfigError, ProjectSetup, TemplateNotFound,
};
use moxide::templates::{find_template, Template, Window};

fn window(name: Option<&str>, layout: Option<&str>, panes: &[&str]) -> Window {
    Window {
        name: name.map(|s| s.to_string()),
        layout: layout.map(|s| s.to_string()),
        panes: panes.iter().map(|s| s.to_string()).collect(),
    }
}

#[test]
fn test_parser() {
    let project = Project::from_raw(
        "OsmApp".to_string(),
        "~/GitHub/osmapp".to_string(),
        None,
        Some(vec![
            window(Some("\u{f36f} Neovim"), None, &["nvim"]),
            window(Some("Server"), None, &["yarn run dev"]),
        ]),
    )
    .unwrap();

    assert_eq!(
        project,
        Project {
            name: "OsmApp".to_string(),
            root_dir: "~/GitHub/osmapp".to_string(),
            setup: ProjectSetup::Windows {
                windows: vec![
                    Window {
                        name: Some("\u{f36f} Neovim".to_string()),
                        panes: vec!["nvim".to_string()],
                        layout: None,
                    },
                    Window {
                        name: Some("Server".to_string()),
                        panes: vec!["yarn run dev".to_string()],
                        layout: None,
                    }
                ]
            }
        }
    );

    let project = Project::from_raw(
        "Dlool".to_string(),
        "~/SoftwareDevelopment/web/Dlool/dlool_frontend_v2/".to_string(),
        Some("Svelte".to_string()),
        None,
    )
    .unwrap();

    assert_eq!(
        project,
        Project {
            name: "Dlool".to_string(),
            root_dir: "~/SoftwareDevelopment/web/Dlool/dlool_frontend_v2/".to_string(),
            setup: ProjectSetup::Template("Svelte".to_string())
        }
    );
}

#[test]
fn raw_record_without_setup_is_rejected() {
    let err = Project::from_raw("p".to_string(), "/r".to_string(), None, None).unwrap_err();
    assert_eq!(err, ProjectConfigError::MissingSetup);
}

#[test]
fn record_with_both_template_and_windows_is_rejected() {
    let err = Project::from_raw(
        "p".to_string(),
        "/r".to_string(),
        Some("t".to_string()),
        Some(vec![window(None, None, &["x"])]),
    )
    .unwrap_err();
    assert_eq!(err, ProjectConfigError::ConflictingSetup);
}

#[test]
fn inline_windows_keep_order_and_text() {
    let windows = vec![
        window(Some(" padded "), None, &["  spaced cmd  ", "second"]),
        window(None, Some("even-horizontal"), &["third"]),
    ];
    let setup = ProjectSetup::Windows { windows: windows.clone() };
    let expanded = expand_setup(setup, &Vec::new()).unwrap();
    assert_eq!(expanded, windows);
}

#[test]
fn template_reference_expands_to_its_windows() {
    let templates = vec![
        Template { name: "other".to_string(), hidden: None, windows: vec![] },
        Template {
            name: "dev".to_string(),
            hidden: Some(false),
            windows: vec![window(Some("w"), None, &["cmd"])],
        },
    ];
    let expanded = expand_setup(ProjectSetup::Template("dev".to_string()), &templates).unwrap();
    assert_eq!(expanded, vec![window(Some("w"), None, &["cmd"])]);
}

#[test]
fn missing_template_is_a_hard_error() {
    let templates = vec![Template { name: "real".to_string(), hidden: None, windows: vec![] }];
    let err = expand_setup(ProjectSetup::Template("ghost".to_string()), &templates).unwrap_err();
    assert_eq!(err, TemplateNotFound { name: "ghost".to_string() });
}

#[test]
fn find_template_returns_first_match() {
    let templates = vec![
        Template { name: "a".to_string(), hidden: None, windows: vec![] },
        Template { name: "b".to_string(), hidden: None, windows: vec![window(None, None, &["x"])] },
        Template { name: "b".to_string(), hidden: None, windows: vec![] },
    ];
    assert_eq!(find_template(&"b".to_string(), &templates), Some(1));
    assert_eq!(find_template(&"c".to_string(), &templates), None);
}

#[test]
fn find_project_returns_first_match() {
    let projects = vec![
        Project {
            name: "a".to_string(),
            root_dir: "/a".to_string(),
            setup: ProjectSetup::Template("t".to_string()),
        },
        Project {
            name: "b".to_string(),
            root_dir: "/b".to_string(),
            setup: ProjectSetup::Template("t".to_string()),
        },
    ];
    assert_eq!(find_project(&"b".to_string(), &projects), Some(1));
    assert_eq!(find_project(&"z".to_string(), &projects), None);
}
