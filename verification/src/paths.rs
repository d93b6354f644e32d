//! File-system paths as strings, with the Unix path rules that the server
//! relies on.
use vstd::prelude::*;
use crate::text::{chars_of, extend_chars, string_of};

verus! {

/// `base.join(part)` on Unix: an absolute `part` replaces `base`; otherwise
/// `part` is appended, with a `/` between unless `base` is empty or already
/// ends with one (what `Path::join` computes, as `PathBuf::push` documents).
pub open spec fn path_join(base: Seq<char>, part: Seq<char>) -> Seq<char> {
    if part.len() > 0 && part[0] == '/' {
        part
    } else if base.len() == 0 || base.last() == '/' {
        base + part
    } else {
        base + seq!['/'] + part
    }
}

/// Joins `part` onto `base` with the rule of `path_join`.
pub fn join(base: &str, part: &str) -> (r: String)
    ensures
        r@ == path_join(base@, part@),
{
    let bv = chars_of(base);
    let pv = chars_of(part);
    if pv.len() > 0 && pv[0] == '/' {
        return string_of(&pv);
    }
    let mut out = bv;
    if out.len() > 0 && out[out.len() - 1] != '/' {
        out.push('/');
    }
    extend_chars(&mut out, &pv);
    string_of(&out)
}

/// The index of the last occurrence of `c` in `s`.
pub open spec fn last_index_of(s: Seq<char>, c: char) -> Option<int> {
    if exists|i: int| 0 <= i < s.len() && s[i] == c {
        Some(choose|i: int| 0 <= i < s.len() && s[i] == c && forall|j: int| i < j < s.len() ==> s[j] != c)
    } else {
        None
    }
}

proof fn lemma_last_index(s: Seq<char>, c: char, i: int)
    requires
        0 <= i < s.len(),
        s[i] == c,
        forall|j: int| i < j < s.len() ==> s[j] != c,
    ensures
        last_index_of(s, c) == Some(i),
{
    let k = choose|k: int| 0 <= k < s.len() && s[k] == c && forall|j: int| k < j < s.len() ==> s[j] != c;
    assert(0 <= k < s.len() && s[k] == c && forall|j: int| k < j < s.len() ==> s[j] != c);
    if k < i {
        assert(s[i] != c);
    }
    if i < k {
        assert(s[k] != c);
    }
}

/// The index of the last occurrence of `c` in `s`.
pub fn rfind_char(s: &Vec<char>, c: char) -> (r: Option<usize>)
    ensures
        r matches Some(i) ==> last_index_of(s@, c) == Some(i as int) && i < s@.len(),
        r is None ==> last_index_of(s@, c) is None,
{
    let mut k: usize = s.len();
    while k > 0
        invariant
            k <= s.len(),
            forall|j: int| k <= j < s.len() ==> s@[j] != c,
        decreases k,
    {
        if s[k - 1] == c {
            proof {
                lemma_last_index(s@, c, k - 1);
            }
            return Some(k - 1);
        }
        k = k - 1;
    }
    None
}

/// The extension of a file name, as `Path::extension` documents it: none if
/// the name has no `.`, none if its only `.` is its first character, none for
/// `..`, and otherwise the part after the last `.`.
pub open spec fn extension_of_name(name: Seq<char>) -> Option<Seq<char>> {
    if name == seq!['.', '.'] {
        None
    } else {
        match last_index_of(name, '.') {
            None => None,
            Some(i) => if i == 0 {
                None
            } else {
                Some(name.subrange(i + 1, name.len() as int))
            },
        }
    }
}

/// Whether the file name has the extension `md`.
pub fn is_markdown_name(name: &str) -> (r: bool)
    ensures
        r == (extension_of_name(name@) == Some(seq!['m', 'd'])),
{
    let nv = chars_of(name);
    if nv.len() == 2 && nv[0] == '.' && nv[1] == '.' {
        assert(nv@ =~= seq!['.', '.']);
        return false;
    }
    assert(nv@ != seq!['.', '.']) by {
        if nv@ == seq!['.', '.'] {
            assert(nv@.len() == 2 && nv@[0] == '.' && nv@[1] == '.');
        }
    }
    match rfind_char(&nv, '.') {
        None => false,
        Some(i) => {
            if i == 0 {
                return false;
            }
            let r = nv.len() - i == 3 && nv[i + 1] == 'm' && nv[i + 2] == 'd';
            assert(r == (nv@.subrange(i + 1, nv@.len() as int) == seq!['m', 'd'])) by {
                if nv@.subrange(i + 1, nv@.len() as int) == seq!['m', 'd'] {
                    assert(nv@.subrange(i + 1, nv@.len() as int).len() == 2);
                    assert(nv@.subrange(i + 1, nv@.len() as int)[0] == nv@[i + 1]);
                    assert(nv@.subrange(i + 1, nv@.len() as int)[1] == nv@[i + 2]);
                }
                if r {
                    assert(nv@.subrange(i + 1, nv@.len() as int) =~= seq!['m', 'd']);
                }
            }
            r
        },
    }
}

/// The segments of `p` before its last separator, and the segment after it.
pub open spec fn split_segments(p: Seq<char>) -> (Seq<Seq<char>>, Seq<char>)
    decreases p.len(),
{
    if p.len() == 0 {
        (seq![], seq![])
    } else {
        let (done, cur) = split_segments(p.drop_last());
        if p.last() == '/' {
            (done.push(cur), seq![])
        } else {
            (done, cur.push(p.last()))
        }
    }
}

/// The segments of `p` between separators, in order.
pub open spec fn segments(p: Seq<char>) -> Seq<Seq<char>> {
    split_segments(p).0.push(split_segments(p).1)
}

/// The segments that name something: not empty and not `.` (`..` stays).
pub open spec fn named_parts(segs: Seq<Seq<char>>) -> Seq<Seq<char>>
    decreases segs.len(),
{
    if segs.len() == 0 {
        seq![]
    } else {
        let rest = named_parts(segs.drop_last());
        if segs.last().len() == 0 || segs.last() == seq!['.'] {
            rest
        } else {
            rest.push(segs.last())
        }
    }
}

/// The components of a path as `Path::components` gives them on Unix:
/// whether it has a root, whether it begins with a `.` component (a
/// relative path that is `.` or begins with `./`), and the named parts.
pub open spec fn path_components(p: Seq<char>) -> (bool, bool, Seq<Seq<char>>) {
    let root = p.len() > 0 && p[0] == '/';
    let cur = !root && p.len() > 0 && p[0] == '.' && (p.len() == 1 || p[1] == '/');
    (root, cur, named_parts(segments(p)))
}

/// The final component of a path when it is a name (what `Path::file_name`
/// returns): the last named part, and nothing when there is none or it is
/// `..`.
pub open spec fn path_file_name(p: Seq<char>) -> Option<Seq<char>> {
    let parts = named_parts(segments(p));
    if parts.len() == 0 || parts.last() == seq!['.', '.'] {
        None
    } else {
        Some(parts.last())
    }
}

/// The final component of `path`, if it has one.
///
/// Wraps `Path::file_name`, documented as the final component of the path,
/// `None` when the path ends in `..`; the components are those of
/// `Path::components` (empty and `.` segments skipped). The name is UTF-8
/// here, as the path is.
#[verifier::external_body]
pub(crate) fn file_name_of(path: &str) -> (r: Option<String>)
    ensures
        r matches Some(n) ==> path_file_name(path@) == Some(n@),
        r is None ==> path_file_name(path@) is None,
{
    std::path::Path::new(path).file_name().map(|n| n.to_string_lossy().into_owned())
}

/// The two paths have the same components (what `==` on `Path` compares).
pub open spec fn paths_equal(a: Seq<char>, b: Seq<char>) -> bool {
    path_components(a) == path_components(b)
}

/// Whether two paths name the same components.
///
/// Wraps `==` on `std::path::Path`, which compares the paths' components.
#[verifier::external_body]
pub(crate) fn same_path(a: &str, b: &str) -> (r: bool)
    ensures
        r == paths_equal(a@, b@),
{
    std::path::Path::new(a) == std::path::Path::new(b)
}

/// The file name of `path`, or `default` when it has none.
pub fn file_name_or(path: &str, default: &str) -> (r: String)
    ensures
        r@ == (match path_file_name(path@) {
            Some(n) => n,
            None => default@,
        }),
{
    match file_name_of(path) {
        Some(n) => n,
        None => String::from_str(default),
    }
}

// ---------------------------------------------------------------------------
// Home-directory expansion
// ---------------------------------------------------------------------------

/// The path's first component is `~` (what `Path::starts_with("~")` tests).
pub open spec fn starts_with_tilde(p: Seq<char>) -> bool {
    p == seq!['~'] || (p.len() >= 2 && p[0] == '~' && p[1] == '/')
}

/// `s` without leading empty and `.` components.
pub open spec fn strip_leading_components(s: Seq<char>) -> Seq<char>
    decreases s.len(),
{
    if s.len() > 0 && s[0] == '/' {
        strip_leading_components(s.subrange(1, s.len() as int))
    } else if s == seq!['.'] {
        seq![]
    } else if s.len() >= 2 && s[0] == '.' && s[1] == '/' {
        strip_leading_components(s.subrange(2, s.len() as int))
    } else {
        s
    }
}

/// `s` without trailing empty and `.` components.
pub open spec fn strip_trailing_components(s: Seq<char>) -> Seq<char>
    decreases s.len(),
{
    if s.len() > 0 && s.last() == '/' {
        strip_trailing_components(s.drop_last())
    } else if s == seq!['.'] {
        seq![]
    } else if s.len() >= 2 && s.last() == '.' && s[s.len() - 2] == '/' {
        strip_trailing_components(s.drop_last().drop_last())
    } else {
        s
    }
}

/// What remains of a `~` path once `~` is stripped (what
/// `Path::strip_prefix("~")` gives).
pub open spec fn after_tilde(p: Seq<char>) -> Seq<char> {
    strip_trailing_components(strip_leading_components(p.subrange(1, p.len() as int)))
}

/// A path with a leading `~` component expanded to `home`.
pub open spec fn expand_tilde(p: Seq<char>, home: Seq<char>) -> Seq<char> {
    if starts_with_tilde(p) {
        path_join(home, after_tilde(p))
    } else {
        p
    }
}

fn strip_leading(v: Vec<char>) -> (r: Vec<char>)
    ensures
        r@ == strip_leading_components(v@),
    decreases v@.len(),
{
    let n = v.len();
    if n > 0 && v[0] == '/' {
        let rest = subvec(&v, 1, n);
        strip_leading(rest)
    } else if n == 1 && v[0] == '.' {
        assert(v@ =~= seq!['.']);
        Vec::new()
    } else if n >= 2 && v[0] == '.' && v[1] == '/' {
        assert(v@ != seq!['.']);
        let rest = subvec(&v, 2, n);
        strip_leading(rest)
    } else {
        assert(v@ != seq!['.']) by {
            if v@ == seq!['.'] {
                assert(v@.len() == 1 && v@[0] == '.');
            }
        }
        v
    }
}

fn strip_trailing(v: Vec<char>) -> (r: Vec<char>)
    ensures
        r@ == strip_trailing_components(v@),
    decreases v@.len(),
{
    let n = v.len();
    if n > 0 && v[n - 1] == '/' {
        let rest = subvec(&v, 0, n - 1);
        assert(rest@ =~= v@.drop_last());
        strip_trailing(rest)
    } else if n == 1 && v[0] == '.' {
        assert(v@ =~= seq!['.']);
        Vec::new()
    } else if n >= 2 && v[n - 1] == '.' && v[n - 2] == '/' {
        assert(v@ != seq!['.']);
        let rest = subvec(&v, 0, n - 2);
        assert(rest@ =~= v@.drop_last().drop_last());
        strip_trailing(rest)
    } else {
        assert(v@ != seq!['.']) by {
            if v@ == seq!['.'] {
                assert(v@.len() == 1 && v@[0] == '.');
            }
        }
        v
    }
}

/// The characters `v[from..to]`.
pub fn subvec(v: &Vec<char>, from: usize, to: usize) -> (r: Vec<char>)
    requires
        from <= to <= v@.len(),
    ensures
        r@ == v@.subrange(from as int, to as int),
{
    let mut out: Vec<char> = Vec::new();
    let mut k = from;
    while k < to
        invariant
            from <= k <= to,
            to <= v@.len(),
            out@ == v@.subrange(from as int, k as int),
        decreases to - k,
    {
        out.push(v[k]);
        k = k + 1;
        assert(out@ =~= v@.subrange(from as int, k as int));
    }
    out
}

/// `path` with a leading `~` component expanded to `home`.
pub fn expand_home_with(path: &str, home: &str) -> (r: String)
    ensures
        r@ == expand_tilde(path@, home@),
{
    let pv = chars_of(path);
    let n = pv.len();
    let tilde = (n == 1 && pv[0] == '~') || (n >= 2 && pv[0] == '~' && pv[1] == '/');
    assert(tilde == starts_with_tilde(pv@)) by {
        if pv@ == seq!['~'] {
            assert(pv@.len() == 1 && pv@[0] == '~');
        }
        if n == 1 && pv@[0] == '~' {
            assert(pv@ =~= seq!['~']);
        }
    }
    if !tilde {
        return String::from_str(path);
    }
    let rest = strip_trailing(strip_leading(subvec(&pv, 1, n)));
    let rest_s = string_of(&rest);
    join(home, rest_s.as_str())
}

/// The user's home directory, if one is known.
///
/// Wraps `dirs::home_dir`, whose result depends on the environment, so
/// nothing is claimed of it; a path that is not UTF-8 is converted lossily.
#[verifier::external_body]
pub(crate) fn home_dir() -> (r: Option<String>) {
    dirs::home_dir().map(|p| p.to_string_lossy().into_owned())
}

/// The user's local data directory, if one is known.
///
/// Wraps `dirs::data_local_dir`, whose result depends on the environment, so
/// nothing is claimed of it; a path that is not UTF-8 is converted lossily.
#[verifier::external_body]
pub(crate) fn data_local_dir() -> (r: Option<String>) {
    dirs::data_local_dir().map(|p| p.to_string_lossy().into_owned())
}

/// The directory `~` stands for: the home directory, or `/` when none is
/// known.
pub open spec fn home_or_root_spec(home: Option<String>) -> Seq<char> {
    match home {
        Some(h) => h@,
        None => "/"@,
    }
}

/// The directory `~` stands for.
pub fn home_or_root(home: Option<String>) -> (r: String)
    ensures
        r@ == home_or_root_spec(home),
{
    match home {
        Some(h) => h,
        None => String::from_str("/"),
    }
}

/// `path` with a leading `~` expanded to the user's home directory, or to
/// `/` when no home directory is known.
pub fn expand_home(path: &str) -> (r: String)
    ensures
        exists|home: Option<String>| r@ == expand_tilde(path@, #[trigger] home_or_root_spec(home)),
        !starts_with_tilde(path@) ==> r@ == path@,
{
    let home = home_dir();
    let h = home_or_root(home);
    expand_home_with(path, h.as_str())
}

} // verus!
