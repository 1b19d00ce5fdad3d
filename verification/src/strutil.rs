//! String helpers shared by the configuration parser, the resolver and the
//! session namer: trimming, searching, line splitting and path-segment
//! extraction, each proved against a small spec function.
use vstd::prelude::*;

verus! {

/// The whitespace characters that configuration parsing strips from names
/// and paths: the Unicode White_Space set.
pub open spec fn is_config_space(c: char) -> bool {
    c == ' ' || c == '\t' || c == '\r' || c == '\n' || c == '\u{000B}' || c == '\u{000C}'
        || c == '\u{0085}' || c == '\u{00A0}' || c == '\u{1680}' || c == '\u{2000}'
        || c == '\u{2001}' || c == '\u{2002}' || c == '\u{2003}' || c == '\u{2004}'
        || c == '\u{2005}' || c == '\u{2006}' || c == '\u{2007}' || c == '\u{2008}'
        || c == '\u{2009}' || c == '\u{200A}' || c == '\u{2028}' || c == '\u{2029}'
        || c == '\u{202F}' || c == '\u{205F}' || c == '\u{3000}'
}

/// `s` without its leading whitespace.
pub open spec fn trim_start_spec(s: Seq<char>) -> Seq<char>
    decreases s.len(),
{
    if s.len() > 0 && is_config_space(s[0]) {
        trim_start_spec(s.drop_first())
    } else {
        s
    }
}

/// `s` without its trailing whitespace.
pub open spec fn trim_end_spec(s: Seq<char>) -> Seq<char>
    decreases s.len(),
{
    if s.len() > 0 && is_config_space(s.last()) {
        trim_end_spec(s.drop_last())
    } else {
        s
    }
}

/// `s` without leading and trailing whitespace.
pub open spec fn trim_spec(s: Seq<char>) -> Seq<char> {
    trim_end_spec(trim_start_spec(s))
}

proof fn lemma_trim_start_is_skip(s: Seq<char>, i: int)
    requires
        0 <= i <= s.len(),
        forall|j: int| 0 <= j < i ==> is_config_space(s[j]),
        i == s.len() || !is_config_space(s[i]),
    ensures
        trim_start_spec(s) == s.skip(i),
    decreases i,
{
    if i == 0 {
        assert(s.skip(0) =~= s);
    } else {
        assert(is_config_space(s[0]));
        lemma_trim_start_is_skip(s.drop_first(), i - 1);
        assert(s.drop_first().skip(i - 1) =~= s.skip(i));
    }
}

proof fn lemma_trim_end_is_take(s: Seq<char>, j: int)
    requires
        0 <= j <= s.len(),
        forall|k: int| j <= k < s.len() ==> is_config_space(s[k]),
        j == 0 || !is_config_space(s[j - 1]),
    ensures
        trim_end_spec(s) == s.take(j),
    decreases s.len(),
{
    if j == s.len() {
        if s.len() > 0 {
            assert(!is_config_space(s.last()));
        }
        assert(s.take(j) =~= s);
    } else {
        assert(is_config_space(s.last()));
        lemma_trim_end_is_take(s.drop_last(), j);
        assert(s.drop_last().take(j) =~= s.take(j));
    }
}

/// True when `c` is one of the whitespace characters stripped by `trim`.
pub fn is_space_char(c: char) -> (r: bool)
    ensures
        r == is_config_space(c),
{
    c == ' ' || c == '\t' || c == '\r' || c == '\n' || c == '\u{000B}' || c == '\u{000C}'
        || c == '\u{0085}' || c == '\u{00A0}' || c == '\u{1680}' || c == '\u{2000}'
        || c == '\u{2001}' || c == '\u{2002}' || c == '\u{2003}' || c == '\u{2004}'
        || c == '\u{2005}' || c == '\u{2006}' || c == '\u{2007}' || c == '\u{2008}'
        || c == '\u{2009}' || c == '\u{200A}' || c == '\u{2028}' || c == '\u{2029}'
        || c == '\u{202F}' || c == '\u{205F}' || c == '\u{3000}'
}

/// `s` without leading and trailing whitespace, the executable counterpart
/// of `trim_spec`.
pub fn trim(s: &str) -> (r: &str)
    ensures
        r@ == trim_spec(s@),
{
    let len = s.unicode_len();
    let mut i: usize = 0;
    while i < len && is_space_char(s.get_char(i))
        invariant
            0 <= i <= len,
            len == s@.len(),
            forall|j: int| 0 <= j < i ==> is_config_space(s@[j]),
        decreases len - i,
    {
        i = i + 1;
    }
    let mut j: usize = len;
    while j > i && is_space_char(s.get_char(j - 1))
        invariant
            i <= j <= len,
            len == s@.len(),
            forall|j0: int| 0 <= j0 < i ==> is_config_space(s@[j0]),
            i == len || !is_config_space(s@[i as int]),
            forall|k: int| j <= k < len ==> is_config_space(s@[k]),
        decreases j,
    {
        j = j - 1;
    }
    let r = s.substring_char(i, j);
    proof {
        lemma_trim_start_is_skip(s@, i as int);
        lemma_trim_end_is_take(s@.skip(i as int), j - i);
        assert(s@.subrange(i as int, j as int) =~= s@.skip(i as int).take(j - i));
    }
    r
}

/// Index of the first occurrence of `c` in `s`, or `s.len()` when `c` does
/// not occur.
pub open spec fn first_index_of(s: Seq<char>, c: char) -> nat
    decreases s.len(),
{
    if s.len() == 0 {
        0
    } else if s[0] == c {
        0
    } else {
        (first_index_of(s.drop_first(), c) + 1) as nat
    }
}

pub proof fn lemma_first_index_is(s: Seq<char>, c: char, m: int)
    requires
        0 <= m <= s.len(),
        forall|j: int| 0 <= j < m ==> s[j] != c,
        m == s.len() || s[m] == c,
    ensures
        first_index_of(s, c) == m,
    decreases s.len(),
{
    if s.len() == 0 {
    } else if s[0] == c {
        assert(m == 0);
    } else {
        assert(m != 0);
        lemma_first_index_is(s.drop_first(), c, m - 1);
    }
}

/// First index `r >= from` with `s[r] == c`, or `s.len()` when `c` does not
/// occur at or after `from`.
pub fn scan_char(s: &str, from: usize, c: char) -> (r: usize)
    requires
        from <= s@.len(),
    ensures
        from <= r <= s@.len(),
        forall|j: int| from <= j < r ==> s@[j] != c,
        r < s@.len() ==> s@[r as int] == c,
{
    let len = s.unicode_len();
    let mut i: usize = from;
    while i < len && s.get_char(i) != c
        invariant
            from <= i <= len,
            len == s@.len(),
            forall|j: int| from <= j < i ==> s@[j] != c,
        decreases len - i,
    {
        i = i + 1;
    }
    i
}

/// A line terminator's optional carriage return: `l` without a final `'\r'`.
pub open spec fn strip_cr(l: Seq<char>) -> Seq<char> {
    if l.len() > 0 && l.last() == '\r' {
        l.drop_last()
    } else {
        l
    }
}

/// The lines of `s`, split at `'\n'`, each line stripped of a carriage
/// return left by a `"\r\n"` terminator; a final segment without a
/// terminator is kept as it stands, and a terminator at the very end opens
/// no empty last line.
pub open spec fn split_lines_spec(s: Seq<char>) -> Seq<Seq<char>>
    decreases s.len(),
{
    if s.len() == 0 {
        Seq::empty()
    } else {
        let i = first_index_of(s, '\n');
        if i < s.len() {
            seq![strip_cr(s.take(i as int))] + split_lines_spec(s.skip(i as int + 1))
        } else {
            seq![s]
        }
    }
}

/// Splits `s` into lines, the executable counterpart of `split_lines_spec`.
pub fn split_lines(s: &str) -> (r: Vec<String>)
    ensures
        r.deep_view() == split_lines_spec(s@),
{
    let len = s.unicode_len();
    let mut out: Vec<String> = Vec::new();
    let mut pos: usize = 0;
    proof {
        assert(s@.skip(0) =~= s@);
        assert(out.deep_view() =~= Seq::<Seq<char>>::empty());
    }
    while pos < len
        invariant
            0 <= pos <= len,
            len == s@.len(),
            split_lines_spec(s@) == out.deep_view() + split_lines_spec(s@.skip(pos as int)),
        decreases len - pos,
    {
        let ghost suffix = s@.skip(pos as int);
        let k = scan_char(s, pos, '\n');
        proof {
            lemma_first_index_is(suffix, '\n', k - pos);
            assert(suffix.len() == len - pos);
        }
        if k < len {
            let line = if k > pos && s.get_char(k - 1) == '\r' {
                s.substring_char(pos, k - 1)
            } else {
                s.substring_char(pos, k)
            };
            proof {
                assert(suffix.take(k - pos) =~= s@.subrange(pos as int, k as int));
                if k > pos && s@[k - 1] == '\r' {
                    assert(suffix.take(k - pos).drop_last() =~= s@.subrange(
                        pos as int,
                        k - 1,
                    ));
                }
                assert(line@ == strip_cr(suffix.take(k - pos)));
            }
            let owned: String = line.to_owned();
            out.push(owned);
            proof {
                assert(suffix.skip(k - pos + 1) =~= s@.skip(k + 1));
                assert(out.deep_view() =~= out.deep_view().take(
                    out.deep_view().len() - 1,
                ).push(strip_cr(suffix.take(k - pos))));
                assert(out.deep_view() + split_lines_spec(s@.skip(k + 1))
                    =~= split_lines_spec(s@));
            }
            pos = k + 1;
        } else {
            let line = s.substring_char(pos, len);
            proof {
                assert(line@ =~= suffix);
            }
            let owned: String = line.to_owned();
            out.push(owned);
            proof {
                assert(out.deep_view() + split_lines_spec(s@.skip(len as int))
                    =~= split_lines_spec(s@));
            }
            pos = len;
        }
    }
    proof {
        assert(s@.skip(len as int) =~= Seq::<char>::empty());
        assert(out.deep_view() + split_lines_spec(s@.skip(len as int)) =~= out.deep_view());
    }
    out
}

/// `s` without any trailing `'/'` characters.
pub open spec fn strip_trailing_slashes(s: Seq<char>) -> Seq<char>
    decreases s.len(),
{
    if s.len() > 0 && s.last() == '/' {
        strip_trailing_slashes(s.drop_last())
    } else {
        s
    }
}

proof fn lemma_strip_slashes_is_take(s: Seq<char>, j: int)
    requires
        0 <= j <= s.len(),
        forall|k: int| j <= k < s.len() ==> s[k] == '/',
        j == 0 || s[j - 1] != '/',
    ensures
        strip_trailing_slashes(s) == s.take(j),
    decreases s.len(),
{
    if j == s.len() {
        if s.len() > 0 {
            assert(s.last() != '/');
        }
        assert(s.take(j) =~= s);
    } else {
        assert(s.last() == '/');
        lemma_strip_slashes_is_take(s.drop_last(), j);
        assert(s.drop_last().take(j) =~= s.take(j));
    }
}

/// The segment of `s` after its last `'/'`; all of `s` when no `'/'`
/// occurs.
pub open spec fn after_last_slash(s: Seq<char>) -> Seq<char>
    decreases s.len(),
{
    if s.len() == 0 {
        s
    } else if s.last() == '/' {
        Seq::empty()
    } else {
        after_last_slash(s.drop_last()).push(s.last())
    }
}

proof fn lemma_after_last_slash_is_skip(s: Seq<char>, i: int)
    requires
        0 <= i <= s.len(),
        forall|k: int| i <= k < s.len() ==> s[k] != '/',
        i == 0 || s[i - 1] == '/',
    ensures
        after_last_slash(s) == s.skip(i),
    decreases s.len(),
{
    if s.len() == 0 {
        assert(s.skip(0) =~= s);
    } else if s.last() == '/' {
        assert(i == s.len());
        assert(s.skip(i) =~= Seq::<char>::empty());
    } else {
        assert(i < s.len());
        lemma_after_last_slash_is_skip(s.drop_last(), i);
        assert(s.drop_last().skip(i).push(s.last()) =~= s.skip(i));
    }
}

/// The final path segment of `s`: trailing slashes are ignored, and the
/// segment after the last remaining `'/'` is taken.  Empty when `s` holds
/// nothing but slashes.
pub open spec fn dir_name_spec(s: Seq<char>) -> Seq<char> {
    after_last_slash(strip_trailing_slashes(s))
}

/// The final path segment of `path`, the executable counterpart of
/// `dir_name_spec`.  Used to derive a session name from a directory.
pub fn dir_name(path: &str) -> (r: String)
    ensures
        r@ == dir_name_spec(path@),
{
    let len = path.unicode_len();
    let mut j: usize = len;
    while j > 0 && path.get_char(j - 1) == '/'
        invariant
            0 <= j <= len,
            len == path@.len(),
            forall|k: int| j <= k < len ==> path@[k] == '/',
        decreases j,
    {
        j = j - 1;
    }
    let mut i: usize = j;
    while i > 0 && path.get_char(i - 1) != '/'
        invariant
            0 <= i <= j <= len,
            len == path@.len(),
            forall|k: int| i <= k < j ==> path@[k] != '/',
        decreases i,
    {
        i = i - 1;
    }
    let seg = path.substring_char(i, j);
    proof {
        lemma_strip_slashes_is_take(path@, j as int);
        lemma_after_last_slash_is_skip(path@.take(j as int), i as int);
        assert(path@.subrange(i as int, j as int) =~= path@.take(j as int).skip(i as int));
    }
    seg.to_owned()
}

/// `s` without its trailing path-separator noise: trailing slashes and
/// trailing `"."` components (a `'.'` standing alone or right after a
/// slash) are peeled off, as the standard path reader does when it takes a
/// file name.
pub open spec fn trim_dot_segments(s: Seq<char>) -> Seq<char>
    decreases s.len(),
{
    if s.len() > 0 && (s.last() == '/' || (s.last() == '.' && (s.len() == 1 || s[s.len() - 2]
        == '/'))) {
        trim_dot_segments(s.drop_last())
    } else {
        s
    }
}

/// The final path segment of `path` as a directory name: trailing slashes
/// and `"."` components are ignored, and the remaining final segment is
/// the name.  `None` when no segment is left or when the segment is the
/// relative component `".."`, from which no name can be derived.
pub open spec fn file_name_spec(s: Seq<char>) -> Option<Seq<char>> {
    let seg = after_last_slash(trim_dot_segments(s));
    if seg.len() == 0 || seg =~= seq!['.', '.'] {
        None
    } else {
        Some(seg)
    }
}

/// The executable counterpart of `file_name_spec`.
pub fn file_name(path: &str) -> (r: Option<String>)
    ensures
        r.deep_view() == file_name_spec(path@),
{
    let len = path.unicode_len();
    let mut j: usize = len;
    proof {
        assert(path@.take(len as int) =~= path@);
    }
    while j > 0 && (path.get_char(j - 1) == '/' || (path.get_char(j - 1) == '.' && (j == 1
        || path.get_char(j - 2) == '/')))
        invariant
            0 <= j <= len,
            len == path@.len(),
            trim_dot_segments(path@) == trim_dot_segments(path@.take(j as int)),
        decreases j,
    {
        proof {
            assert(path@.take(j as int).last() == path@[j - 1]);
            if j >= 2 {
                assert(path@.take(j as int)[j - 2] == path@[j - 2]);
            }
            assert(path@.take(j as int).drop_last() =~= path@.take(j - 1));
        }
        j = j - 1;
    }
    let ghost t = path@.take(j as int);
    proof {
        if j > 0 {
            assert(t.last() == path@[j - 1]);
            if j >= 2 {
                assert(t[t.len() - 2] == path@[j - 2]);
            }
        }
        assert(trim_dot_segments(t) == t);
    }
    let mut i: usize = j;
    while i > 0 && path.get_char(i - 1) != '/'
        invariant
            0 <= i <= j <= len,
            len == path@.len(),
            forall|k: int| i <= k < j ==> path@[k] != '/',
        decreases i,
    {
        i = i - 1;
    }
    let seg = path.substring_char(i, j);
    proof {
        lemma_after_last_slash_is_skip(t, i as int);
        assert(path@.subrange(i as int, j as int) =~= t.skip(i as int));
    }
    let n = seg.unicode_len();
    if n == 0 {
        return None;
    }
    if n == 2 && seg.get_char(0) == '.' && seg.get_char(1) == '.' {
        proof {
            assert(seg@ =~= seq!['.', '.']);
        }
        return None;
    }
    proof {
        assert(!(seg@ =~= seq!['.', '.']));
    }
    Some(seg.to_owned())
}

} // verus!
