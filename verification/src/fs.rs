//! Hiding and showing files by their names: the renamed path is computed
//! here; testing for existence and performing the rename stay outside this
//! crate.
//!
//! The file name of a path is modelled as the platform's path type selects
//! it: trailing separators and `.` components are ignored, and a path
//! ending in `..` has no file name at all. The renamed path keeps the text
//! before the file name verbatim (repeated separators included, where the
//! platform's path type would collapse the last run) and drops whatever
//! trailing separators or `.` components followed the file name, as the
//! platform's rename of a file name also does.

use vstd::prelude::*;

use crate::strutil::{lemma_spec_rfind, spec_rfind};

verus! {

/// The result of hide and show.
pub enum PathUpdate {
    /// The source path must change to this one.
    Changed(String),
    /// The source path is returned as-is with no change.
    Unchanged(String),
}

/// The span `[start, end)` of a path's file name: trailing `/` are
/// stripped, a final `.` component is skipped together with its separator,
/// a final `..` component means the path has no file name, and anything
/// else reaching back to the last `/` (or the path's start) is the file
/// name.
pub open spec fn spec_fname_span(path: Seq<char>) -> Option<(int, int)>
    decreases path.len(),
    via spec_fname_span_decreases
{
    if path.len() == 0 {
        None
    } else if path.last() == '/' {
        spec_fname_span(path.drop_last())
    } else {
        let s = match spec_rfind(path, '/') {
            Some(i) => i + 1,
            None => 0int,
        };
        let comp = path.skip(s);
        if comp == seq!['.'] {
            spec_fname_span(path.take(s))
        } else if comp == seq!['.', '.'] {
            None
        } else {
            Some((s, path.len() as int))
        }
    }
}

#[via_fn]
proof fn spec_fname_span_decreases(path: Seq<char>) {
    if path.len() > 0 && path.last() != '/' {
        lemma_spec_rfind(path, '/');
    }
}

/// The file name of a path, if it has one.
pub open spec fn spec_file_name(path: Seq<char>) -> Option<Seq<char>> {
    match spec_fname_span(path) {
        Some(sp) => Some(path.subrange(sp.0, sp.1)),
        None => None,
    }
}

/// Whether a path names a hidden file: it has a file name and that name
/// begins with a `.`.
pub open spec fn spec_is_hidden(path: Seq<char>) -> bool {
    match spec_file_name(path) {
        Some(n) => n.len() > 0 && n[0] == '.',
        None => false,
    }
}

/// The file-name span of a path, exactly as `spec_fname_span` says.
#[verifier::loop_isolation(false)]
pub fn fname_span(path: &str) -> (r: Option<(usize, usize)>)
    ensures
        match r {
            Some(p) => spec_fname_span(path@) == Some((p.0 as int, p.1 as int)) && p.0 < p.1
                <= path@.len(),
            None => spec_fname_span(path@) is None,
        },
{
    let n: usize = path.unicode_len();
    let mut end: usize = n;
    proof {
        assert(path@.take(n as int) =~= path@);
    }
    loop
        invariant
            0 <= end <= n,
            spec_fname_span(path@) == spec_fname_span(path@.take(end as int)),
        decreases end,
    {
        if end == 0 {
            proof {
                assert(path@.take(0int) =~= Seq::<char>::empty());
            }
            return None;
        }
        let ghost cur = path@.take(end as int);
        if path.get_char(end - 1) == '/' {
            proof {
                assert(cur.drop_last() =~= path@.take(end - 1));
            }
            end = end - 1;
            continue;
        }
        // Find the start of the final component.
        let mut s: usize = end;
        while s > 0 && path.get_char(s - 1) != '/'
            invariant
                0 <= s <= end,
                forall|j: int| s <= j < end ==> path@[j] != '/',
            decreases s,
        {
            s = s - 1;
        }
        proof {
            lemma_spec_rfind(cur, '/');
            assert forall|j: int| s <= j < end implies cur[j] != '/' by {
                assert(cur[j] == path@[j]);
            }
            match spec_rfind(cur, '/') {
                Some(i) => {
                    assert(cur[i] == path@[i]);
                    assert(i == s - 1);
                },
                None => {
                    if s > 0 {
                        assert(cur[s - 1] == path@[s - 1]);
                        assert(false);
                    }
                },
            }
        }
        let ghost comp = cur.skip(s as int);
        if end - s == 1 && path.get_char(s) == '.' {
            proof {
                assert(comp =~= seq!['.']);
                assert(cur.take(s as int) =~= path@.take(s as int));
            }
            end = s;
            continue;
        }
        proof {
            if comp == seq!['.'] {
                assert(comp.len() == 1 && comp[0] == '.');
                assert(path@[s as int] == cur[s as int]);
                assert(false);
            }
        }
        if end - s == 2 && path.get_char(s) == '.' && path.get_char(s + 1) == '.' {
            proof {
                assert(comp =~= seq!['.', '.']);
            }
            return None;
        }
        proof {
            if comp == seq!['.', '.'] {
                assert(comp.len() == 2 && comp[0] == '.' && comp[1] == '.');
                assert(path@[s as int] == cur[s as int]);
                assert(path@[s + 1 as int] == cur[s + 1 as int]);
                assert(false);
            }
        }
        return Some((s, end));
    }
}

/// The file name of a path, if it has one.
pub fn file_name(path: &str) -> (r: Option<String>)
    ensures
        match r {
            Some(name) => spec_file_name(path@) == Some(name@),
            None => spec_file_name(path@) is None,
        },
{
    match fname_span(path) {
        Some((s, e)) => Some(String::from_str(path.substring_char(s, e))),
        None => None,
    }
}

/// Checks if a given path is hidden: true exactly when it has a file name
/// and that name begins with a `.`; a path without a file name is never
/// hidden.
pub fn is_hidden(path: &str) -> (r: bool)
    ensures
        r == spec_is_hidden(path@),
{
    match fname_span(path) {
        Some((s, _)) => path.get_char(s) == '.',
        None => false,
    }
}

/// The path a file must take to become hidden: a `.` is prefixed to its
/// file name and anything after the name is dropped. A path without a
/// file name cannot be hidden; a path already hidden is returned
/// unchanged.
pub fn hide_path(path: &str) -> (r: Option<PathUpdate>)
    ensures
        match r {
            Some(PathUpdate::Unchanged(p)) => spec_is_hidden(path@) && p@ == path@,
            Some(PathUpdate::Changed(p)) => !spec_is_hidden(path@) && (spec_fname_span(path@)
                matches Some(sp) && p@ == path@.take(sp.0) + seq!['.'] + path@.subrange(
                sp.0,
                sp.1,
            )),
            None => spec_fname_span(path@) is None,
        },
{
    let (s, e) = match fname_span(path) {
        Some(span) => span,
        None => {
            return None;
        },
    };
    if path.get_char(s) == '.' {
        return Some(PathUpdate::Unchanged(String::from_str(path)));
    }
    let prefix = path.substring_char(0, s);
    let name = path.substring_char(s, e);
    let renamed = String::from_str(prefix).concat(".").concat(name);
    proof {
        reveal_strlit(".");
        assert("."@ =~= seq!['.']);
    }
    Some(PathUpdate::Changed(renamed))
}

/// The path a hidden file must take to become visible: the leading `.` of
/// its file name is removed and anything after the name is dropped. A
/// path without a file name cannot change; a path already visible is
/// returned unchanged.
pub fn show(path: &str) -> (r: Option<PathUpdate>)
    ensures
        match r {
            Some(PathUpdate::Unchanged(p)) => !spec_is_hidden(path@) && spec_fname_span(path@)
                is Some && p@ == path@,
            Some(PathUpdate::Changed(p)) => spec_is_hidden(path@) && (spec_fname_span(path@)
                matches Some(sp) && p@ == path@.take(sp.0) + path@.subrange(sp.0, sp.1).skip(1)),
            None => spec_fname_span(path@) is None,
        },
{
    let (s, e) = match fname_span(path) {
        Some(span) => span,
        None => {
            return None;
        },
    };
    if path.get_char(s) != '.' {
        return Some(PathUpdate::Unchanged(String::from_str(path)));
    }
    let prefix = path.substring_char(0, s);
    let shortened = path.substring_char(s + 1, e);
    let renamed = String::from_str(prefix).concat(shortened);
    proof {
        assert(shortened@ =~= path@.subrange(s as int, e as int).skip(1));
    }
    Some(PathUpdate::Changed(renamed))
}

} // verus!
