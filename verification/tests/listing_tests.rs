use moxide::directories::Directories;
use moxide::listing::{format_dirs_minimal, format_name, list_lines, ListCli};
use moxide::projects::{Project, ProjectSetup};
use moxide::templates::Template;

fn names(list: &[&str]) -> Vec<String> {
    list.iter().map(|s| s.to_string()).collect()
}

fn project(name: &str) -> Project {
    Project {
        name: name.to_string(),
        root_dir: "/r".to_string(),
        setup: ProjectSetup::Template("t".to_string()),
    }
}

fn template(name: &str, hidden: Option<bool>) -> Template {
    Template { name: name.to_string(), hidden, windows: vec![] }
}

fn args() -> ListCli {
    ListCli {
        format_project: None,
        format_template: None,
        format_directory: None,
        all: false,
        running: false,
    }
}

#[test]
fn format_name_substitutes_placeholder() {
    let name = "x".to_string();
    assert_eq!(format_name(None, &name), "x".to_string());
    let fmt = "[{}]".to_string();
    assert_eq!(format_name(Some(&fmt), &name), "[x]".to_string());
    let fmt = "{} and {}".to_string();
    assert_eq!(format_name(Some(&fmt), &name), "x and x".to_string());
    let fmt = "{".to_string();
    assert_eq!(format_name(Some(&fmt), &name), "{".to_string());
    let fmt = "no placeholder".to_string();
    assert_eq!(format_name(Some(&fmt), &name), "no placeholder".to_string());
}

#[test]
fn list_lines_orders_projects_templates_directories() {
    let projects = vec![project("p1")];
    let templates = vec![template("t1", None)];
    let dirs = Directories(vec![("d1".to_string(), "/d1".to_string())]);
    let lines = list_lines(&args(), &projects, &templates, &dirs, &names(&[]));
    assert_eq!(lines, names(&["p1", "t1", "d1"]));
}

#[test]
fn list_lines_hides_hidden_templates_unless_all() {
    let templates = vec![template("shown", Some(false)), template("secret", Some(true))];
    let dirs = Directories(vec![]);
    let lines = list_lines(&args(), &Vec::new(), &templates, &dirs, &names(&[]));
    assert_eq!(lines, names(&["shown"]));

    let mut all_args = args();
    all_args.all = true;
    let lines = list_lines(&all_args, &Vec::new(), &templates, &dirs, &names(&[]));
    assert_eq!(lines, names(&["shown", "secret"]));
}

#[test]
fn list_lines_restricts_to_running_sessions() {
    let projects = vec![project("up"), project("down")];
    let templates = vec![template("up", None), template("down", None)];
    let dirs = Directories(vec![
        ("up".to_string(), "/u".to_string()),
        ("down".to_string(), "/d".to_string()),
    ]);
    let mut running_args = args();
    running_args.running = true;
    let lines = list_lines(&running_args, &projects, &templates, &dirs, &names(&["up"]));
    assert_eq!(lines, names(&["up", "up", "up"]));
}

#[test]
fn list_lines_applies_formats_per_kind() {
    let projects = vec![project("p")];
    let templates = vec![template("t", None)];
    let dirs = Directories(vec![("d".to_string(), "/d".to_string())]);
    let fmt_args = ListCli {
        format_project: Some("P:{}".to_string()),
        format_template: Some("T:{}".to_string()),
        format_directory: Some("D:{}".to_string()),
        all: false,
        running: false,
    };
    let lines = list_lines(&fmt_args, &projects, &templates, &dirs, &names(&[]));
    assert_eq!(lines, names(&["P:p", "T:t", "D:d"]));
}

#[test]
fn minimal_directory_listing_quotes_names() {
    let dirs = Directories(vec![
        ("a".to_string(), "/x".to_string()),
        ("b".to_string(), "/y".to_string()),
    ]);
    assert_eq!(format_dirs_minimal(&dirs), "\"a\" /x\n\"b\" /y".to_string());
    assert_eq!(format_dirs_minimal(&Directories(vec![])), "".to_string());
}
