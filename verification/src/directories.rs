//! Directory aliases: a mapping from short names to filesystem paths, parsed
//! from a plain-text configuration where each non-comment line is either
//! `name: path` or a bare `path` whose name is derived from the final path
//! segment.
use vstd::prelude::*;

use crate::strutil::{
    file_name, file_name_spec, first_index_of, lemma_first_index_is, scan_char, split_lines,
    split_lines_spec, trim, trim_spec,
};

verus! {

/// The named directories of the configuration, in the order their lines
/// appear.  Names are unique (`wf`).
#[derive(Debug, PartialEq, Eq)]
pub struct Directories(pub Vec<(String, String)>);

impl View for Directories {
    type V = Seq<(Seq<char>, Seq<char>)>;

    open spec fn view(&self) -> Seq<(Seq<char>, Seq<char>)> {
        self.0.deep_view()
    }
}

/// The path of the first entry of `s` named `name`, if any.
pub open spec fn lookup_spec(s: Seq<(Seq<char>, Seq<char>)>, name: Seq<char>) -> Option<
    Seq<char>,
>
    decreases s.len(),
{
    if s.len() == 0 {
        None
    } else if s[0].0 == name {
        Some(s[0].1)
    } else {
        lookup_spec(s.drop_first(), name)
    }
}

pub proof fn lemma_lookup_none(s: Seq<(Seq<char>, Seq<char>)>, name: Seq<char>)
    requires
        lookup_spec(s, name) is None,
    ensures
        forall|i: int| 0 <= i < s.len() ==> s[i].0 != name,
    decreases s.len(),
{
    if s.len() > 0 {
        assert(s[0].0 != name);
        lemma_lookup_none(s.drop_first(), name);
        assert forall|i: int| 0 <= i < s.len() implies s[i].0 != name by {
            if i > 0 {
                assert(s.drop_first()[i - 1] == s[i]);
            }
        }
    }
}

/// True when no two entries of `s` share a name.
pub open spec fn unique_names(s: Seq<(Seq<char>, Seq<char>)>) -> bool {
    forall|i: int, j: int| 0 <= i < j < s.len() ==> s[i].0 != s[j].0
}

impl Directories {
    /// Well-formed: entry names are unique.
    pub open spec fn wf(&self) -> bool {
        unique_names(self@)
    }

    /// The configured path for alias `name`, or `None` when no directory of
    /// that name exists.
    pub fn get(&self, name: &str) -> (r: Option<&String>)
        ensures
            r.deep_view() == lookup_spec(self@, name@),
    {
        let name_owned: String = name.to_owned();
        let mut i: usize = 0;
        proof {
            assert(self@.skip(0) =~= self@);
        }
        while i < self.0.len()
            invariant
                0 <= i <= self.0.len(),
                self@.len() == self.0.len(),
                name_owned@ == name@,
                lookup_spec(self@, name@) == lookup_spec(self@.skip(i as int), name@),
            decreases self.0.len() - i,
        {
            proof {
                assert(self@.skip(i as int)[0] == self@[i as int]);
                assert(self@.skip(i as int).drop_first() =~= self@.skip(i as int + 1));
            }
            if self.0[i].0 == name_owned {
                return Some(&self.0[i].1);
            }
            i = i + 1;
        }
        proof {
            assert(self@.skip(self@.len() as int) =~= Seq::<(Seq<char>, Seq<char>)>::empty());
        }
        None
    }

    /// The directory names, in configuration order.
    pub fn names(&self) -> (r: Vec<String>)
        ensures
            r.deep_view() == self@.map_values(|e: (Seq<char>, Seq<char>)| e.0),
    {
        let mut out: Vec<String> = Vec::new();
        let mut i: usize = 0;
        while i < self.0.len()
            invariant
                0 <= i <= self.0.len(),
                self@.len() == self.0.len(),
                out.deep_view() =~= self@.take(i as int).map_values(
                    |e: (Seq<char>, Seq<char>)| e.0,
                ),
            decreases self.0.len() - i,
        {
            let ghost before = out.deep_view();
            out.push(self.0[i].0.clone());
            proof {
                assert(out.deep_view() =~= before.push(self@[i as int].0));
                assert(before.push(self@[i as int].0) =~= self@.take(i + 1).map_values(
                    |e: (Seq<char>, Seq<char>)| e.0,
                ));
            }
            i = i + 1;
        }
        proof {
            assert(self@.take(self@.len() as int) =~= self@);
        }
        out
    }
}

/// Why a directory configuration was rejected: a bare path from which no
/// name can be derived, or one name claimed by two paths.
#[derive(Debug, PartialEq, Eq)]
pub enum ParseDirectoryError {
    NoDirName { dir: String },
    DuplicateName { name: String, values: (String, String) },
}

/// What a single configuration line contributes: nothing (comments), an
/// alias entry, or a rejection.
pub enum DirLine {
    Skip,
    Entry(Seq<char>, Seq<char>),
    NoName(Seq<char>),
}

/// How one line of the directory configuration is read: comment lines are
/// skipped; a line with a colon is split at the first colon into a trimmed
/// name and a trimmed path; any other line is a trimmed path whose name is
/// its final segment.
pub open spec fn dir_line_spec(line: Seq<char>) -> DirLine {
    if line.len() > 0 && line[0] == '#' {
        DirLine::Skip
    } else {
        let i = first_index_of(line, ':');
        if i < line.len() {
            DirLine::Entry(trim_spec(line.take(i as int)), trim_spec(line.skip(i as int + 1)))
        } else {
            let t = trim_spec(line);
            match file_name_spec(t) {
                Some(n) => DirLine::Entry(n, t),
                None => DirLine::NoName(t),
            }
        }
    }
}

/// The outcome of parsing a directory configuration, at the level of views.
pub enum DirParse {
    Done(Seq<(Seq<char>, Seq<char>)>),
    NoName(Seq<char>),
    Duplicate(Seq<char>, Seq<char>, Seq<char>),
}

/// Folds the remaining `lines` over the entries accumulated so far: the
/// first offending line decides the error, and a duplicate name reports the
/// path already held beside the path just read.
pub open spec fn parse_dir_lines(lines: Seq<Seq<char>>, acc: Seq<(Seq<char>, Seq<char>)>) -> DirParse
    decreases lines.len(),
{
    if lines.len() == 0 {
        DirParse::Done(acc)
    } else {
        match dir_line_spec(lines[0]) {
            DirLine::Skip => parse_dir_lines(lines.drop_first(), acc),
            DirLine::NoName(p) => DirParse::NoName(p),
            DirLine::Entry(n, p) => match lookup_spec(acc, n) {
                Some(p0) => DirParse::Duplicate(n, p0, p),
                None => parse_dir_lines(lines.drop_first(), acc.push((n, p))),
            },
        }
    }
}

/// The parse of a whole directory configuration text.
pub open spec fn parse_directory_spec(content: Seq<char>) -> DirParse {
    parse_dir_lines(split_lines_spec(content), Seq::empty())
}

/// Parses the text of the directory configuration file.  Each non-comment
/// line is either `name: path` or a bare `path` named after its final
/// segment; a line with no derivable name or a name used twice is a fatal
/// configuration error.
pub fn parse_directory_config(content: &str) -> (r: Result<Directories, ParseDirectoryError>)
    ensures
        match r {
            Ok(d) => parse_directory_spec(content@) == DirParse::Done(d@) && d.wf(),
            Err(ParseDirectoryError::NoDirName { dir }) => parse_directory_spec(content@)
                == DirParse::NoName(dir@),
            Err(ParseDirectoryError::DuplicateName { name, values }) => parse_directory_spec(
                content@,
            ) == DirParse::Duplicate(name@, values.0@, values.1@),
        },
{
    let lines = split_lines(content);
    let ghost all_lines = lines.deep_view();
    let mut acc: Vec<(String, String)> = Vec::new();
    let mut i: usize = 0;
    proof {
        assert(all_lines.skip(0) =~= all_lines);
        assert(acc.deep_view() =~= Seq::<(Seq<char>, Seq<char>)>::empty());
        assert(parse_directory_spec(content@) == parse_dir_lines(
            all_lines,
            Seq::empty(),
        ));
    }
    while i < lines.len()
        invariant
            0 <= i <= lines.len(),
            all_lines == lines.deep_view(),
            all_lines.len() == lines.len(),
            unique_names(acc.deep_view()),
            parse_directory_spec(content@) == parse_dir_lines(
                all_lines.skip(i as int),
                acc.deep_view(),
            ),
        decreases lines.len() - i,
    {
        let line: &String = &lines[i];
        let ghost rest = all_lines.skip(i as int);
        proof {
            assert(rest[0] == line@);
            assert(rest.drop_first() =~= all_lines.skip(i as int + 1));
        }
        let line_len = line.as_str().unicode_len();
        if line_len > 0 && line.as_str().get_char(0) == '#' {
            // comment line
            proof {
                assert(dir_line_spec(rest[0]) == DirLine::Skip);
                assert(parse_dir_lines(rest, acc.deep_view()) == parse_dir_lines(
                    rest.drop_first(),
                    acc.deep_view(),
                ));
            }
            i = i + 1;
            continue ;
        }
        let colon = scan_char(line.as_str(), 0, ':');
        let (name, path): (String, String) = if colon < line_len {
            proof {
                lemma_first_index_is(line@, ':', colon as int);
            }
            let n = trim(line.as_str().substring_char(0, colon)).to_owned();
            let p = trim(line.as_str().substring_char(colon + 1, line_len)).to_owned();
            proof {
                assert(line@.subrange(0, colon as int) =~= line@.take(colon as int));
                assert(line@.subrange(colon as int + 1, line_len as int) =~= line@.skip(
                    colon as int + 1,
                ));
            }
            (n, p)
        } else {
            proof {
                lemma_first_index_is(line@, ':', line_len as int);
            }
            let t = trim(line.as_str()).to_owned();
            match file_name(t.as_str()) {
                Some(n) => (n, t),
                None => {
                    proof {
                        assert(dir_line_spec(rest[0]) == DirLine::NoName(t@));
                        assert(parse_dir_lines(rest, acc.deep_view()) == DirParse::NoName(t@));
                    }
                    return Err(ParseDirectoryError::NoDirName { dir: t });
                },
            }
        };
        proof {
            assert(dir_line_spec(rest[0]) == DirLine::Entry(name@, path@));
        }
        // duplicate check against the entries read so far
        let ghost av = acc.deep_view();
        proof {
            assert(av.skip(0) =~= av);
        }
        let mut k: usize = 0;
        while k < acc.len()
            invariant
                0 <= k <= acc.len(),
                av == acc.deep_view(),
                av.len() == acc.len(),
                rest.len() > 0,
                dir_line_spec(rest[0]) == DirLine::Entry(name@, path@),
                parse_directory_spec(content@) == parse_dir_lines(rest, av),
                lookup_spec(av, name@) == lookup_spec(av.skip(k as int), name@),
            decreases acc.len() - k,
        {
            proof {
                assert(av.skip(k as int)[0] == av[k as int]);
                assert(av.skip(k as int).drop_first() =~= av.skip(k as int + 1));
            }
            if acc[k].0 == name {
                proof {
                    assert(lookup_spec(av.skip(k as int), name@) == Some(av[k as int].1));
                    assert(parse_dir_lines(rest, av) == DirParse::Duplicate(
                        name@,
                        av[k as int].1,
                        path@,
                    ));
                }
                return Err(ParseDirectoryError::DuplicateName {
                    name,
                    values: (acc[k].1.clone(), path),
                });
            }
            k = k + 1;
        }
        let ghost nv = name@;
        let ghost pv = path@;
        proof {
            assert(av.skip(av.len() as int) =~= Seq::<(Seq<char>, Seq<char>)>::empty());
            assert(lookup_spec(av, nv) is None);
            lemma_lookup_none(av, nv);
            assert(parse_dir_lines(rest, av) == parse_dir_lines(
                rest.drop_first(),
                av.push((nv, pv)),
            ));
        }
        acc.push((name, path));
        proof {
            assert(acc.deep_view() =~= av.push((nv, pv)));
            assert forall|x: int, y: int|
                0 <= x < y < acc.deep_view().len() implies acc.deep_view()[x].0
                != acc.deep_view()[y].0 by {
                if y < av.len() {
                    assert(acc.deep_view()[x] == av[x]);
                    assert(acc.deep_view()[y] == av[y]);
                } else {
                    assert(acc.deep_view()[y].0 == nv);
                    if x < av.len() {
                        assert(acc.deep_view()[x] == av[x]);
                    }
                }
            }
        }
        i = i + 1;
    }
    proof {
        assert(all_lines.skip(lines.len() as int) =~= Seq::<Seq<char>>::empty());
    }
    Ok(Directories(acc))
}

} // verus!
