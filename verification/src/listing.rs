//! Listings: the lazily filtered, formatted name lines for projects,
//! templates and directories, and the minimal directory listing.  A format
//! string may carry the placeholder `{}`, replaced with the entity's name.
use vstd::prelude::*;

use crate::directories::Directories;
use crate::naming::contains_name;
use crate::projects::{Project, ProjectView};
use crate::templates::{Template, TemplateView};

verus! {

/// The listing options: one optional format string per entity kind, whether
/// hidden templates are shown, and whether listing is restricted to names
/// with a running session.
pub struct ListCli {
    pub format_project: Option<String>,
    pub format_template: Option<String>,
    pub format_directory: Option<String>,
    pub all: bool,
    pub running: bool,
}

/// `fmt` with every occurrence of the placeholder `{}` replaced by `name`.
pub open spec fn subst_spec(fmt: Seq<char>, name: Seq<char>) -> Seq<char>
    decreases fmt.len(),
{
    if fmt.len() < 2 {
        fmt
    } else if fmt[0] == '{' && fmt[1] == '}' {
        name + subst_spec(fmt.skip(2), name)
    } else {
        seq![fmt[0]] + subst_spec(fmt.skip(1), name)
    }
}

/// A formatted name line: the name itself without a format string, else the
/// format string with its placeholders substituted.
pub open spec fn format_name_spec(fmt: Option<Seq<char>>, name: Seq<char>) -> Seq<char> {
    match fmt {
        Some(f) => subst_spec(f, name),
        None => name,
    }
}

/// The executable counterpart of `format_name_spec`.
pub fn format_name(fmt: Option<&String>, name: &String) -> (r: String)
    ensures
        r@ == format_name_spec(fmt.deep_view(), name@),
{
    match fmt {
        None => name.clone(),
        Some(f) => {
            let len = f.as_str().unicode_len();
            let mut out = String::new();
            let mut i: usize = 0;
            proof {
                assert(f@.skip(0) =~= f@);
                assert(out@ + subst_spec(f@.skip(0), name@) =~= subst_spec(f@, name@));
            }
            while i < len
                invariant
                    0 <= i <= len,
                    len == f@.len(),
                    subst_spec(f@, name@) == out@ + subst_spec(f@.skip(i as int), name@),
                decreases len - i,
            {
                let ghost rest = f@.skip(i as int);
                if i + 1 < len && f.as_str().get_char(i) == '{' && f.as_str().get_char(i + 1)
                    == '}' {
                    out.append(name.as_str());
                    proof {
                        assert(rest.skip(2) =~= f@.skip(i as int + 2));
                    }
                    i = i + 2;
                } else {
                    let piece = f.as_str().substring_char(i, i + 1);
                    out.append(piece);
                    proof {
                        assert(piece@ =~= seq![rest[0]]);
                        assert(rest.skip(1) =~= f@.skip(i as int + 1));
                        if i + 1 == len {
                            assert(rest.len() == 1);
                            assert(subst_spec(rest, name@) == rest);
                            assert(rest =~= seq![rest[0]]);
                        }
                    }
                    i = i + 1;
                }
            }
            proof {
                assert(f@.skip(len as int) =~= Seq::<char>::empty());
            }
            out
        },
    }
}

/// Whether a project is listed: either all projects are, or only those
/// whose name has a running session.
pub open spec fn project_included(p: ProjectView, running_only: bool, running: Seq<Seq<char>>) -> bool {
    !running_only || running.contains(p.name)
}

/// The listed lines for `ps`, in order.
pub open spec fn project_list_lines(
    ps: Seq<ProjectView>,
    fmt: Option<Seq<char>>,
    running_only: bool,
    running: Seq<Seq<char>>,
) -> Seq<Seq<char>>
    decreases ps.len(),
{
    if ps.len() == 0 {
        Seq::empty()
    } else {
        project_list_lines(ps.drop_last(), fmt, running_only, running) + (
        if project_included(ps.last(), running_only, running) {
            seq![format_name_spec(fmt, ps.last().name)]
        } else {
            Seq::empty()
        })
    }
}

/// Whether a template is listed: hidden templates only when all are asked
/// for, and, when restricted to running sessions, only templates whose name
/// has one.
pub open spec fn template_included(
    t: TemplateView,
    all: bool,
    running_only: bool,
    running: Seq<Seq<char>>,
) -> bool {
    &&& !(t.hidden == Some(true) && !all)
    &&& !running_only || running.contains(t.name)
}

/// The listed lines for `ts`, in order.
pub open spec fn template_list_lines(
    ts: Seq<TemplateView>,
    fmt: Option<Seq<char>>,
    all: bool,
    running_only: bool,
    running: Seq<Seq<char>>,
) -> Seq<Seq<char>>
    decreases ts.len(),
{
    if ts.len() == 0 {
        Seq::empty()
    } else {
        template_list_lines(ts.drop_last(), fmt, all, running_only, running) + (
        if template_included(ts.last(), all, running_only, running) {
            seq![format_name_spec(fmt, ts.last().name)]
        } else {
            Seq::empty()
        })
    }
}

/// The listed lines for directory entries `ds`, in order.
pub open spec fn directory_list_lines(
    ds: Seq<(Seq<char>, Seq<char>)>,
    fmt: Option<Seq<char>>,
    running_only: bool,
    running: Seq<Seq<char>>,
) -> Seq<Seq<char>>
    decreases ds.len(),
{
    if ds.len() == 0 {
        Seq::empty()
    } else {
        directory_list_lines(ds.drop_last(), fmt, running_only, running) + (
        if !running_only || running.contains(ds.last().0) {
            seq![format_name_spec(fmt, ds.last().0)]
        } else {
            Seq::empty()
        })
    }
}

/// The lines of the aggregate listing: projects, then templates, then
/// directories, each filtered and formatted by `args`, where `running`
/// holds the names of the multiplexer's running sessions.
pub fn list_lines(
    args: &ListCli,
    projects: &Vec<Project>,
    templates: &Vec<Template>,
    dirs: &Directories,
    running: &Vec<String>,
) -> (r: Vec<String>)
    ensures
        r.deep_view() == project_list_lines(
            projects.deep_view(),
            args.format_project.deep_view(),
            args.running,
            running.deep_view(),
        ) + template_list_lines(
            templates.deep_view(),
            args.format_template.deep_view(),
            args.all,
            args.running,
            running.deep_view(),
        ) + directory_list_lines(
            dirs@,
            args.format_directory.deep_view(),
            args.running,
            running.deep_view(),
        ),
{
    let ghost pv = projects.deep_view();
    let ghost tv = templates.deep_view();
    let ghost dv = dirs@;
    let ghost rv = running.deep_view();
    let mut out: Vec<String> = Vec::new();
    let mut i: usize = 0;
    proof {
        assert(pv.take(0) =~= Seq::<ProjectView>::empty());
        assert(out.deep_view() =~= project_list_lines(
            pv.take(0),
            args.format_project.deep_view(),
            args.running,
            rv,
        ));
    }
    while i < projects.len()
        invariant
            0 <= i <= projects@.len(),
            pv == projects.deep_view(),
            pv.len() == projects@.len(),
            rv == running.deep_view(),
            out.deep_view() == project_list_lines(
                pv.take(i as int),
                args.format_project.deep_view(),
                args.running,
                rv,
            ),
        decreases projects@.len() - i,
    {
        let ghost before = out.deep_view();
        let p = &projects[i];
        if !args.running || contains_name(running, &p.name) {
            out.push(format_name(args.format_project.as_ref(), &p.name));
        }
        proof {
            assert(pv.take(i + 1).drop_last() =~= pv.take(i as int));
            assert(pv.take(i + 1).last() == pv[i as int]);
            assert(out.deep_view() =~= project_list_lines(
                pv.take(i + 1),
                args.format_project.deep_view(),
                args.running,
                rv,
            ));
        }
        i = i + 1;
    }
    proof {
        assert(pv.take(pv.len() as int) =~= pv);
    }
    let ghost proj_part = project_list_lines(
        pv,
        args.format_project.deep_view(),
        args.running,
        rv,
    );
    let mut i: usize = 0;
    proof {
        assert(tv.take(0) =~= Seq::<TemplateView>::empty());
        assert(out.deep_view() =~= proj_part + template_list_lines(
            tv.take(0),
            args.format_template.deep_view(),
            args.all,
            args.running,
            rv,
        ));
    }
    while i < templates.len()
        invariant
            0 <= i <= templates@.len(),
            tv == templates.deep_view(),
            tv.len() == templates@.len(),
            rv == running.deep_view(),
            out.deep_view() == proj_part + template_list_lines(
                tv.take(i as int),
                args.format_template.deep_view(),
                args.all,
                args.running,
                rv,
            ),
        decreases templates@.len() - i,
    {
        let ghost before = out.deep_view();
        let t = &templates[i];
        let hidden = match t.hidden {
            Some(b) => b,
            None => false,
        };
        proof {
            assert(hidden == (tv[i as int].hidden == Some(true)));
        }
        if !(hidden && !args.all) && (!args.running || contains_name(running, &t.name)) {
            out.push(format_name(args.format_template.as_ref(), &t.name));
            proof {
                assert(template_included(tv[i as int], args.all, args.running, rv));
                assert(out.deep_view() =~= before.push(format_name_spec(
                    args.format_template.deep_view(),
                    tv[i as int].name,
                )));
            }
        } else {
            proof {
                assert(!template_included(tv[i as int], args.all, args.running, rv));
            }
        }
        proof {
            assert(tv.take(i + 1).drop_last() =~= tv.take(i as int));
            assert(tv.take(i + 1).last() == tv[i as int]);
            assert(out.deep_view() =~= proj_part + template_list_lines(
                tv.take(i + 1),
                args.format_template.deep_view(),
                args.all,
                args.running,
                rv,
            ));
        }
        i = i + 1;
    }
    proof {
        assert(tv.take(tv.len() as int) =~= tv);
    }
    let ghost temp_part = template_list_lines(
        tv,
        args.format_template.deep_view(),
        args.all,
        args.running,
        rv,
    );
    let mut i: usize = 0;
    proof {
        assert(dv.take(0) =~= Seq::<(Seq<char>, Seq<char>)>::empty());
        assert(out.deep_view() =~= proj_part + temp_part + directory_list_lines(
            dv.take(0),
            args.format_directory.deep_view(),
            args.running,
            rv,
        ));
    }
    while i < dirs.0.len()
        invariant
            0 <= i <= dirs.0.len(),
            dv == dirs@,
            dv.len() == dirs.0.len(),
            rv == running.deep_view(),
            out.deep_view() == proj_part + temp_part + directory_list_lines(
                dv.take(i as int),
                args.format_directory.deep_view(),
                args.running,
                rv,
            ),
        decreases dirs.0.len() - i,
    {
        let ghost before = out.deep_view();
        let name = &dirs.0[i].0;
        proof {
            assert(name@ == dv[i as int].0);
        }
        if !args.running || contains_name(running, name) {
            out.push(format_name(args.format_directory.as_ref(), name));
            proof {
                assert(out.deep_view() =~= before.push(format_name_spec(
                    args.format_directory.deep_view(),
                    dv[i as int].0,
                )));
            }
        }
        proof {
            assert(dv.take(i + 1).drop_last() =~= dv.take(i as int));
            assert(dv.take(i + 1).last() == dv[i as int]);
            assert(out.deep_view() =~= proj_part + temp_part + directory_list_lines(
                dv.take(i + 1),
                args.format_directory.deep_view(),
                args.running,
                rv,
            ));
        }
        i = i + 1;
    }
    proof {
        assert(dv.take(dv.len() as int) =~= dv);
    }
    out
}

/// One line of the minimal directory listing: the quoted name, a space,
/// the path.
pub open spec fn dir_minimal_line(e: (Seq<char>, Seq<char>)) -> Seq<char> {
    "\""@ + e.0 + "\" "@ + e.1
}

/// The minimal directory listing: one line per directory, in configuration
/// order, joined by newlines.
pub open spec fn dirs_minimal_spec(s: Seq<(Seq<char>, Seq<char>)>) -> Seq<char>
    decreases s.len(),
{
    if s.len() == 0 {
        Seq::empty()
    } else if s.len() == 1 {
        dir_minimal_line(s[0])
    } else {
        dirs_minimal_spec(s.drop_last()) + "\n"@ + dir_minimal_line(s.last())
    }
}

/// The executable counterpart of `dirs_minimal_spec`.
pub fn format_dirs_minimal(dirs: &Directories) -> (r: String)
    ensures
        r@ == dirs_minimal_spec(dirs@),
{
    let ghost dv = dirs@;
    let mut out = String::new();
    let mut i: usize = 0;
    proof {
        assert(dv.take(0) =~= Seq::<(Seq<char>, Seq<char>)>::empty());
        assert(out@ =~= dirs_minimal_spec(dv.take(0)));
    }
    while i < dirs.0.len()
        invariant
            0 <= i <= dirs.0.len(),
            dv == dirs@,
            dv.len() == dirs.0.len(),
            out@ == dirs_minimal_spec(dv.take(i as int)),
        decreases dirs.0.len() - i,
    {
        let ghost before = out@;
        if i > 0 {
            out.append("\n");
        }
        out.append("\"");
        out.append(dirs.0[i].0.as_str());
        out.append("\" ");
        out.append(dirs.0[i].1.as_str());
        proof {
            assert(dv.take(i + 1).drop_last() =~= dv.take(i as int));
            assert(dv.take(i + 1).last() == dv[i as int]);
            if i == 0 {
                assert(out@ =~= dir_minimal_line(dv[0]));
                assert(dv.take(1)[0] == dv[0]);
            } else {
                assert(out@ =~= dirs_minimal_spec(dv.take(i as int)) + "\n"@ + dir_minimal_line(
                    dv[i as int],
                ));
            }
            assert(out@ =~= dirs_minimal_spec(dv.take(i + 1)));
        }
        i = i + 1;
    }
    proof {
        assert(dv.take(dv.len() as int) =~= dv);
    }
    out
}

} // verus!
