//! URLs handed to the platform's open facility: a scheme, a path, and the
//! text joining them. Absolutizing a file path and launching the opener
//! stay outside this crate.

use vstd::prelude::*;

use crate::strutil::{spec_find, spec_starts_with};

verus! {

/// An error thrown when a URL couldn't be parsed.
#[derive(Debug)]
pub struct InvalidUrl(pub String);

/// A URL to be passed to the open facility.
#[derive(Debug)]
pub struct Url {
    scheme: String,
    path: String,
}

/// Where the scheme separator `://` first occurs in a URL text.
pub open spec fn spec_scheme_end(s: Seq<char>) -> Option<int> {
    spec_find_sub(s, "://"@)
}

/// The first position where `pat` occurs in `s`.
pub open spec fn spec_find_sub(s: Seq<char>, pat: Seq<char>) -> Option<int>
    decreases s.len(),
{
    if pat.len() > s.len() {
        None
    } else if spec_starts_with(s, pat) {
        Some(0int)
    } else if s.len() == 0 {
        None
    } else {
        match spec_find_sub(s.skip(1), pat) {
            Some(i) => Some(i + 1),
            None => None,
        }
    }
}

/// What `spec_find_sub` returns, said without recursion.
pub proof fn lemma_spec_find_sub(s: Seq<char>, pat: Seq<char>)
    ensures
        match spec_find_sub(s, pat) {
            Some(i) => 0 <= i && i + pat.len() <= s.len() && s.subrange(i, i + pat.len()) == pat
                && forall|j: int|
                0 <= j < i ==> #[trigger] s.subrange(j, j + pat.len()) != pat,
            None => forall|j: int|
                0 <= j <= s.len() - pat.len() ==> #[trigger] s.subrange(j, j + pat.len()) != pat,
        },
    decreases s.len(),
{
    if pat.len() <= s.len() && !spec_starts_with(s, pat) && s.len() > 0 {
        assert(s.subrange(0, pat.len() as int) =~= s.take(pat.len() as int));
        lemma_spec_find_sub(s.skip(1), pat);
        let rest = s.skip(1);
        match spec_find_sub(rest, pat) {
            Some(i) => {
                assert(s.subrange(i + 1, i + 1 + pat.len()) =~= rest.subrange(i, i + pat.len()));
                assert forall|j: int| 0 <= j < i + 1 implies #[trigger] s.subrange(
                    j,
                    j + pat.len(),
                ) != pat by {
                    if j > 0 {
                        assert(s.subrange(j, j + pat.len()) =~= rest.subrange(
                            j - 1,
                            j - 1 + pat.len(),
                        ));
                    }
                }
            },
            None => {
                assert forall|j: int|
                    0 <= j <= s.len() - pat.len() implies #[trigger] s.subrange(
                    j,
                    j + pat.len(),
                ) != pat by {
                    if j > 0 {
                        assert(s.subrange(j, j + pat.len()) =~= rest.subrange(
                            j - 1,
                            j - 1 + pat.len(),
                        ));
                    }
                }
            },
        }
    } else if pat.len() <= s.len() {
        if s.len() == 0 {
            assert(s.take(pat.len() as int) =~= pat);
        } else {
            assert(s.subrange(0, pat.len() as int) =~= s.take(pat.len() as int));
        }
    }
}

/// The first position where `pat` occurs in `s`, if any.
fn find_sub(s: &str, pat: &str) -> (r: Option<usize>)
    ensures
        match r {
            Some(i) => spec_find_sub(s@, pat@) == Some(i as int),
            None => spec_find_sub(s@, pat@) is None,
        },
{
    proof {
        lemma_spec_find_sub(s@, pat@);
    }
    let n: usize = s.unicode_len();
    let m: usize = pat.unicode_len();
    if m > n {
        return None;
    }
    if m == 0 {
        proof {
            assert(s@.take(0int) =~= pat@);
        }
        return Some(0);
    }
    let mut i: usize = 0;
    while i <= n - m
        invariant
            0 <= i <= n - m + 1,
            1 <= m <= n,
            n == s@.len(),
            m == pat@.len(),
            forall|j: int| 0 <= j < i ==> #[trigger] s@.subrange(j, j + pat@.len()) != pat@,
        decreases n - m + 1 - i,
    {
        let piece = s.substring_char(i, i + m);
        if crate::strutil::str_eq(piece, pat) {
            proof {
                lemma_spec_find_sub(s@, pat@);
                if spec_find_sub(s@, pat@) is None {
                    assert(false);
                }
                let k = spec_find_sub(s@, pat@)->Some_0;
                assert(k == i as int);
            }
            return Some(i);
        }
        i = i + 1;
    }
    proof {
        lemma_spec_find_sub(s@, pat@);
        if spec_find_sub(s@, pat@) is Some {
            let k = spec_find_sub(s@, pat@)->Some_0;
            assert(false);
        }
    }
    None
}

impl Url {
    /// The scheme, as its characters.
    pub closed spec fn scheme_view(&self) -> Seq<char> {
        self.scheme@
    }

    /// The path, as its characters.
    pub closed spec fn path_view(&self) -> Seq<char> {
        self.path@
    }

    /// Creates a new URL from a scheme and a path.
    pub fn new(scheme: String, path: String) -> (r: Url)
        ensures
            r.scheme_view() == scheme@,
            r.path_view() == path@,
    {
        Url { scheme, path }
    }

    /// Returns the scheme of this URL.
    pub fn scheme(&self) -> (r: &str)
        ensures
            r@ == self.scheme_view(),
    {
        self.scheme.as_str()
    }

    /// Returns the path of this URL.
    pub fn path(&self) -> (r: &str)
        ensures
            r@ == self.path_view(),
    {
        self.path.as_str()
    }

    /// True if this URL points at a file or folder on the local system.
    pub fn is_path(&self) -> (r: bool)
        ensures
            r == (self.scheme_view() == "file"@),
    {
        crate::strutil::str_eq(self.scheme.as_str(), "file")
    }

    /// Parses a URL text at its first `://`: the scheme before it, the
    /// path after it. A text without the separator is no URL.
    pub fn parse(value: &str) -> (r: Result<Url, InvalidUrl>)
        ensures
            match r {
                Ok(url) => {
                    &&& spec_scheme_end(value@) is Some
                    &&& url.scheme_view() == value@.take(spec_scheme_end(value@)->Some_0)
                    &&& url.path_view() == value@.skip(spec_scheme_end(value@)->Some_0 + 3)
                },
                Err(e) => spec_scheme_end(value@) is None && e.0@ == value@,
            },
    {
        match find_sub(value, "://") {
            Some(id) => {
                proof {
                    lemma_spec_find_sub(value@, "://"@);
                    reveal_strlit("://");
                }
                let n: usize = value.unicode_len();
                let scheme = value.substring_char(0, id);
                let path = value.substring_char(id + 3, n);
                proof {
                    assert(scheme@ =~= value@.take(id as int));
                    assert(path@ =~= value@.skip(id + 3 as int));
                }
                Ok(Url::new(String::from_str(scheme), String::from_str(path)))
            },
            None => Err(InvalidUrl(String::from_str(value))),
        }
    }

    /// The URL as one text: the scheme, the separator and the path. A
    /// `file` URL whose path is not yet absolute must be absolutized by
    /// the caller before this join is handed to the platform.
    pub fn to_text(&self) -> (r: String)
        ensures
            r@ == self.scheme_view() + "://"@ + self.path_view(),
    {
        String::from_str(self.scheme.as_str()).concat("://").concat(self.path.as_str())
    }
}

} // verus!
