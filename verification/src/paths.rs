//! Path strings as character sequences: joining, trailing-separator
//! stripping, final-segment and parent extraction, extension and stem
//! splitting, and expansion of the `~/` home shorthand.
//!
//! Paths follow the Unix conventions the rest of the crate relies on:
//! `/` separates segments, a final segment of `.` or `..` names no file,
//! and an extension is what follows the last `.` of a name unless that
//! dot is the name's first character.

use vstd::prelude::*;

verus! {

/// True when `s` begins with the two-character home shorthand `~/`.
pub open spec fn has_home_prefix(s: Seq<char>) -> bool {
    s.len() >= 2 && s[0] == '~' && s[1] == '/'
}

/// `s` with its leading `~/` removed: the two-character shorthand is
/// stripped once, and the remainder is kept exactly as it stands.
pub open spec fn strip_home_prefix(s: Seq<char>) -> Seq<char> {
    if has_home_prefix(s) {
        s.subrange(2, s.len() as int)
    } else {
        s
    }
}

/// `rest` joined onto `base` as `PathBuf::join` does on Unix: an absolute
/// `rest` replaces `base`, and otherwise exactly one separator stands
/// between them (none is added after an empty `base` or a trailing one).
pub open spec fn spec_join(base: Seq<char>, rest: Seq<char>) -> Seq<char> {
    if rest.len() > 0 && rest[0] == '/' {
        rest
    } else if base.len() == 0 {
        rest
    } else if base[base.len() - 1] == '/' {
        base + rest
    } else {
        base + seq!['/'] + rest
    }
}

/// Home-shorthand expansion: a path carrying the `~/` prefix is joined onto
/// the home directory when one is known; otherwise, and for every other
/// path, the input is returned unchanged.
pub open spec fn spec_resolve(path: Seq<char>, home: Option<Seq<char>>) -> Seq<char> {
    if has_home_prefix(path) && home is Some {
        spec_join(home->0, strip_home_prefix(path))
    } else {
        path
    }
}

/// The sequence view of an optional borrowed string.
pub open spec fn opt_str_view(o: Option<&String>) -> Option<Seq<char>> {
    match o {
        Some(h) => Some(h@),
        None => None,
    }
}

/// `s` with all trailing `/` characters removed.
pub open spec fn strip_trailing_slashes(s: Seq<char>) -> Seq<char>
    decreases s.len(),
{
    if s.len() > 0 && s[s.len() - 1] == '/' {
        strip_trailing_slashes(s.drop_last())
    } else {
        s
    }
}

/// The largest index of `c` in `s`, or `-1` when `c` does not occur.
pub open spec fn last_index_of(s: Seq<char>, c: char) -> int
    decreases s.len(),
{
    if s.len() == 0 {
        -1
    } else if s[s.len() - 1] == c {
        s.len() - 1
    } else {
        last_index_of(s.drop_last(), c)
    }
}

pub proof fn lemma_last_index_of(s: Seq<char>, c: char)
    ensures
        -1 <= last_index_of(s, c) < s.len(),
        last_index_of(s, c) >= 0 ==> s[last_index_of(s, c)] == c,
        forall|j: int| last_index_of(s, c) < j < s.len() ==> s[j] != c,
    decreases s.len(),
{
    if s.len() > 0 && s[s.len() - 1] != c {
        lemma_last_index_of(s.drop_last(), c);
        assert forall|j: int| last_index_of(s, c) < j < s.len() implies s[j] != c by {
            if j < s.len() - 1 {
                assert(s.drop_last()[j] == s[j]);
            }
        }
    }
}

/// The final path segment, with trailing separators ignored; `None` for a
/// path of separators alone, for an empty path, and for a final segment of
/// `.` or `..`, which name no file of their own. The check is purely
/// textual: unlike `std::path::Path::file_name`, which normalizes `.`
/// components away and would report the segment before a trailing `.`,
/// this model never looks past the final segment.
pub open spec fn spec_file_name(p: Seq<char>) -> Option<Seq<char>> {
    let q = strip_trailing_slashes(p);
    if q.len() == 0 {
        None
    } else {
        let name = q.subrange(last_index_of(q, '/') + 1, q.len() as int);
        if name == seq!['.'] || name == seq!['.', '.'] {
            None
        } else {
            Some(name)
        }
    }
}

/// Everything before the final segment, with its own trailing separators
/// removed; the root `/` when nothing else is left, and `None` when the
/// path holds no separator at all.
pub open spec fn spec_parent(p: Seq<char>) -> Option<Seq<char>> {
    let q = strip_trailing_slashes(p);
    if q.len() == 0 {
        None
    } else if last_index_of(q, '/') == -1 {
        None
    } else {
        let pre = strip_trailing_slashes(q.subrange(0, last_index_of(q, '/') + 1));
        if pre.len() == 0 {
            Some(seq!['/'])
        } else {
            Some(pre)
        }
    }
}

/// The extension of a file name: what follows the last `.`, unless that dot
/// is absent or is the leading character of the name.
pub open spec fn ext_of_name(name: Seq<char>) -> Option<Seq<char>> {
    let i = last_index_of(name, '.');
    if i <= 0 {
        None
    } else {
        Some(name.subrange(i + 1, name.len() as int))
    }
}

/// The stem of a file name: what precedes the extension, or the whole name
/// when there is none.
pub open spec fn stem_of_name(name: Seq<char>) -> Seq<char> {
    let i = last_index_of(name, '.');
    if i <= 0 {
        name
    } else {
        name.subrange(0, i)
    }
}

/// Relies on `dirs::home_dir`: the user's home directory, if the system
/// reports one, rendered as a string. The outcome depends on the machine's
/// environment, so nothing is promised of it.
#[verifier::external_body]
pub(crate) fn home_dir_string() -> (r: Option<String>)
{
    dirs::home_dir().map(|p| p.to_string_lossy().into_owned())
}

/// The number of characters `p` keeps once trailing separators go.
fn trimmed_len(p: &str) -> (e: usize)
    ensures
        e <= p@.len(),
        strip_trailing_slashes(p@) == p@.subrange(0, e as int),
{
    let n = p.unicode_len();
    let mut e = n;
    proof {
        assert(p@.subrange(0, n as int) =~= p@);
    }
    while e > 0 && p.get_char(e - 1) == '/'
        invariant
            e <= n,
            n == p@.len(),
            strip_trailing_slashes(p@) == strip_trailing_slashes(p@.subrange(0, e as int)),
        decreases e,
    {
        proof {
            let cur = p@.subrange(0, e as int);
            assert(cur[e - 1] == p@[e - 1]);
            assert(cur.drop_last() =~= p@.subrange(0, e - 1));
        }
        e = e - 1;
    }
    proof {
        let cur = p@.subrange(0, e as int);
        if e > 0 {
            assert(cur[e - 1] == p@[e - 1]);
        }
        assert(strip_trailing_slashes(cur) == cur);
    }
    e
}

/// The position of the last occurrence of `c` in `p`, if any.
fn last_char_index(p: &str, c: char) -> (r: Option<usize>)
    ensures
        r matches Some(i) ==> i as int == last_index_of(p@, c),
        r is None ==> last_index_of(p@, c) == -1,
{
    let n = p.unicode_len();
    let mut j = n;
    while j > 0
        invariant
            j <= n,
            n == p@.len(),
            forall|k: int| j <= k < n ==> p@[k] != c,
        decreases j,
    {
        if p.get_char(j - 1) == c {
            proof {
                lemma_last_index_of(p@, c);
                let li = last_index_of(p@, c);
                if li < j - 1 {
                    assert(p@[j - 1] != c);
                }
                assert(li == j - 1);
            }
            return Some(j - 1);
        }
        j = j - 1;
    }
    proof {
        lemma_last_index_of(p@, c);
        let li = last_index_of(p@, c);
        if li >= 0 {
            assert(p@[li] != c);
        }
    }
    None
}

/// Joins `rest` onto `base` with exactly the meaning of [`spec_join`].
pub fn join_path(base: &str, rest: &str) -> (r: String)
    ensures
        r@ == spec_join(base@, rest@),
{
    let rl = rest.unicode_len();
    if rl > 0 && rest.get_char(0) == '/' {
        return rest.to_owned();
    }
    let bl = base.unicode_len();
    if bl == 0 {
        return rest.to_owned();
    }
    let mut r = base.to_owned();
    if base.get_char(bl - 1) != '/' {
        r.append("/");
        proof {
            reveal_strlit("/");
            assert("/"@ =~= seq!['/']);
        }
    }
    r.append(rest);
    r
}

/// Expands the home shorthand against a caller-supplied home directory:
/// the verified core of the path resolver.
pub fn resolve_with_home(path: &str, home: Option<&String>) -> (r: String)
    ensures
        r@ == spec_resolve(path@, opt_str_view(home)),
{
    let n = path.unicode_len();
    if n >= 2 && path.get_char(0) == '~' && path.get_char(1) == '/' {
        if let Some(h) = home {
            let rest = path.substring_char(2, n);
            return join_path(h.as_str(), rest);
        }
    }
    path.to_owned()
}

/// Expands the `~/` home shorthand to the system's home directory, leaving
/// every other path, and every path on a machine without a known home,
/// unchanged. Touches nothing on disk and never fails.
pub fn expand_tilde(path: &str) -> (r: String)
    ensures
        exists|h: Option<Seq<char>>| r@ == spec_resolve(path@, h),
        !has_home_prefix(path@) ==> r@ == path@,
{
    let home = home_dir_string();
    let home_ref = home.as_ref();
    let r = resolve_with_home(path, home_ref);
    proof {
        assert(r@ == spec_resolve(path@, opt_str_view(home_ref)));
    }
    r
}

/// The final path segment as an owned string, exactly as
/// [`spec_file_name`] describes it.
pub fn file_name_of(p: &str) -> (r: Option<String>)
    ensures
        r matches Some(name) ==> spec_file_name(p@) == Some(name@),
        r is None ==> spec_file_name(p@) is None,
{
    let e = trimmed_len(p);
    if e == 0 {
        return None;
    }
    let q = p.substring_char(0, e);
    proof {
        lemma_last_index_of(q@, '/');
    }
    let name = match last_char_index(q, '/') {
        None => {
            proof {
                assert(q@.subrange(0, q@.len() as int) =~= q@);
            }
            q
        },
        Some(i) => q.substring_char(i + 1, e),
    };
    proof {
        reveal_strlit(".");
        reveal_strlit("..");
        assert("."@ =~= seq!['.']);
        assert(".."@ =~= seq!['.', '.']);
    }
    if crate::strings::str_eq(name, ".") {
        return None;
    }
    if crate::strings::str_eq(name, "..") {
        return None;
    }
    Some(name.to_owned())
}

/// The parent directory as an owned string, exactly as [`spec_parent`]
/// describes it.
pub fn parent_dir(p: &str) -> (r: Option<String>)
    ensures
        r matches Some(par) ==> spec_parent(p@) == Some(par@),
        r is None ==> spec_parent(p@) is None,
{
    let e = trimmed_len(p);
    if e == 0 {
        return None;
    }
    let q = p.substring_char(0, e);
    proof {
        lemma_last_index_of(q@, '/');
    }
    match last_char_index(q, '/') {
        None => None,
        Some(i) => {
            let pre_full = q.substring_char(0, i + 1);
            let e2 = trimmed_len(pre_full);
            if e2 == 0 {
                proof {
                    reveal_strlit("/");
                    assert("/"@ =~= seq!['/']);
                }
                Some("/".to_owned())
            } else {
                Some(pre_full.substring_char(0, e2).to_owned())
            }
        },
    }
}

/// Whether a file name carries exactly the extension `exe`; the check is
/// case-sensitive.
pub fn has_exe_ext(name: &str) -> (r: bool)
    ensures
        r == (ext_of_name(name@) == Some("exe"@)),
{
    proof {
        lemma_last_index_of(name@, '.');
    }
    match last_char_index(name, '.') {
        None => false,
        Some(i) => {
            if i == 0 {
                false
            } else {
                let n = name.unicode_len();
                let ext = name.substring_char(i + 1, n);
                crate::strings::str_eq(ext, "exe")
            }
        },
    }
}

/// A file name's stem, exactly as [`stem_of_name`] describes it.
pub fn stem_of(name: &str) -> (r: String)
    ensures
        r@ == stem_of_name(name@),
{
    proof {
        lemma_last_index_of(name@, '.');
    }
    match last_char_index(name, '.') {
        None => name.to_owned(),
        Some(i) => {
            if i == 0 {
                name.to_owned()
            } else {
                name.substring_char(0, i).to_owned()
            }
        },
    }
}

/// Law: a path that does not start with the home shorthand is returned
/// unchanged by resolution, whatever the home lookup produced.
pub proof fn law_resolve_keeps_plain_paths(path: Seq<char>, home: Option<Seq<char>>)
    ensures
        !has_home_prefix(path) ==> spec_resolve(path, home) == path,
{
}

/// Law: when the home directory is known, a path with the home shorthand
/// resolves to the home directory joined with the stripped remainder.
pub proof fn law_resolve_joins_home(path: Seq<char>, home: Seq<char>)
    requires
        has_home_prefix(path),
    ensures
        spec_resolve(path, Some(home)) == spec_join(home, strip_home_prefix(path)),
{
}

/// Law: when the home directory is a syntactically absolute path, so is the
/// expansion of any shorthand path — whether or not anything exists on disk.
pub proof fn law_resolve_absolute(path: Seq<char>, home: Seq<char>)
    requires
        has_home_prefix(path),
        home.len() > 0,
        home[0] == '/',
    ensures
        spec_resolve(path, Some(home)).len() > 0,
        spec_resolve(path, Some(home))[0] == '/',
{
    let rest = strip_home_prefix(path);
    if rest.len() > 0 && rest[0] == '/' {
    } else if home[home.len() - 1] == '/' {
        assert((home + rest)[0] == home[0]);
    } else {
        assert((home + seq!['/'] + rest)[0] == home[0]);
    }
}

} // verus!
